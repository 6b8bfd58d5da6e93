//! One wallpaper: the size of its surface and state, the pair of textures that its state moves
//! between, and what a frame draws.
use crate::params::Params;
use crate::single::Single;
use vstd::prelude::*;
use vstd::string::*;

verus! {

/// Which of the two state textures holds the state.
#[derive(Clone, Copy, Debug, PartialEq, Eq, Structural)]
pub enum ReadState {
    StateA,
    StateB,
}

impl ReadState {
    /// The other texture.
    pub open spec fn other(self) -> ReadState {
        match self {
            ReadState::StateA => ReadState::StateB,
            ReadState::StateB => ReadState::StateA,
        }
    }

    /// The other texture.
    pub fn swap(self) -> (res: ReadState)
        ensures
            res == self.other(),
    {
        match self {
            ReadState::StateA => ReadState::StateB,
            ReadState::StateB => ReadState::StateA,
        }
    }
}

/// Swapping twice changes nothing, and swapping once always changes something.
pub proof fn law_swap_is_an_involution(state: ReadState)
    ensures
        state.other().other() == state,
        state.other() != state,
{
}

/// How a surface can show what was drawn on it.
#[derive(Clone, Copy, Debug, PartialEq, Eq, Structural)]
pub enum PresentMode {
    Mailbox,
    Fifo,
    Unused,
}

/// What was chosen among the capabilities of a surface; formats and alpha modes by their place
/// in the lists.
#[derive(Clone, Copy, Debug, PartialEq, Eq, Structural)]
pub struct SurfaceChoice {
    pub format: usize,
    pub present_mode: PresentMode,
    pub alpha_mode: usize,
}

/// Whether `i` is the place of the first sRGB format, or that of the first format where none is.
pub open spec fn preferred_format(srgb: Seq<bool>, i: int) -> bool {
    if srgb.contains(true) {
        0 <= i < srgb.len() && srgb[i] && (forall|j: int| 0 <= j < i ==> !srgb[j])
    } else {
        i == 0
    }
}

/// Chooses among the capabilities of a surface. For each format, `srgb` says whether it is an
/// sRGB one.
pub fn choose_surface(
    srgb: &Vec<bool>,
    present_modes: &Vec<PresentMode>,
    alpha_modes: usize,
) -> (res: SurfaceChoice)
    requires
        srgb@.len() > 0,
        alpha_modes > 0,
    ensures
        preferred_format(srgb@, res.format as int),
        res.format < srgb@.len(),
        res.present_mode == if present_modes@.contains(PresentMode::Mailbox) {
            PresentMode::Mailbox
        } else {
            PresentMode::Fifo
        },
        res.alpha_mode == 0,
{
    let mut format: usize = 0;
    let mut i: usize = 0;
    while i < srgb.len()
        invariant_except_break
            i <= srgb@.len(),
            format == 0,
            forall|j: int| 0 <= j < i ==> !srgb@[j],
        ensures
            preferred_format(srgb@, format as int),
            format < srgb@.len() || srgb@.len() == 0,
        decreases srgb@.len() - i,
    {
        if srgb[i] {
            assert(srgb@[i as int]);
            format = i;
            break;
        }
        i = i + 1;
    }
    let mut present_mode = PresentMode::Fifo;
    let mut k: usize = 0;
    while k < present_modes.len()
        invariant
            k <= present_modes@.len(),
            present_mode == if present_modes@.take(k as int).contains(PresentMode::Mailbox) {
                PresentMode::Mailbox
            } else {
                PresentMode::Fifo
            },
        decreases present_modes@.len() - k,
    {
        let ghost before = present_modes@.take(k as int);
        if present_modes[k] == PresentMode::Mailbox {
            present_mode = PresentMode::Mailbox;
        }
        proof {
            let after = present_modes@.take(k + 1);
            assert(after =~= before.push(present_modes@[k as int]));
            if before.contains(PresentMode::Mailbox) {
                let j = choose|j: int|
                    0 <= j < before.len() && before[j] == PresentMode::Mailbox;
                assert(after[j] == PresentMode::Mailbox);
            }
            if present_modes@[k as int] == PresentMode::Mailbox {
                assert(after[k as int] == PresentMode::Mailbox);
            }
            if after.contains(PresentMode::Mailbox) {
                let j = choose|j: int| 0 <= j < after.len() && after[j] == PresentMode::Mailbox;
                if j < k {
                    assert(before[j] == PresentMode::Mailbox);
                }
            }
        }
        k = k + 1;
    }
    assert(present_modes@.take(k as int) =~= present_modes@);
    SurfaceChoice { format, present_mode, alpha_mode: 0 }
}

/// The size of a texture.
#[derive(Clone, Copy, Debug, PartialEq, Eq, Structural)]
pub struct Extent {
    pub width: u32,
    pub height: u32,
}

/// The size of the state of a surface: that of the surface, divided in each direction.
pub open spec fn shrunk(width: u32, shrink_horizontal: u32, height: u32, shrink_vertical: u32) -> Extent {
    Extent {
        width: (width / shrink_horizontal) as u32,
        height: (height / shrink_vertical) as u32,
    }
}

/// The size of the state of a surface.
pub fn state_size(width: u32, shrink_horizontal: u32, height: u32, shrink_vertical: u32) -> (res:
    Extent)
    requires
        shrink_horizontal > 0,
        shrink_vertical > 0,
    ensures
        res == shrunk(width, shrink_horizontal, height, shrink_vertical),
{
    Extent { width: width / shrink_horizontal, height: height / shrink_vertical }
}

/// The state is never larger than the surface.
pub proof fn law_state_is_no_larger(
    width: u32,
    shrink_horizontal: u32,
    height: u32,
    shrink_vertical: u32,
)
    requires
        shrink_horizontal > 0,
        shrink_vertical > 0,
    ensures
        shrunk(width, shrink_horizontal, height, shrink_vertical).width <= width,
        shrunk(width, shrink_horizontal, height, shrink_vertical).height <= height,
{
    vstd::arithmetic::div_mod::lemma_div_is_ordered_by_denominator(
        width as int,
        1,
        shrink_horizontal as int,
    );
    vstd::arithmetic::div_mod::lemma_div_is_ordered_by_denominator(
        height as int,
        1,
        shrink_vertical as int,
    );
}

/// How to configure a surface, and the size of the state textures that go with it.
#[derive(Clone, Copy, Debug, PartialEq, Eq, Structural)]
pub struct SurfacePlan {
    pub surface: Extent,
    pub desired_maximum_frame_latency: u32,
    pub state: Extent,
}

/// What came of asking a surface for a texture to draw on.
#[derive(Clone, Copy, Debug, PartialEq, Eq, Structural)]
pub enum SurfaceStatus {
    Success,
    Suboptimal,
    Timeout,
    Occluded,
    Outdated,
    Lost,
    Validation,
}

impl SurfaceStatus {
    /// Whether there is a texture to draw on.
    pub open spec fn drawable(self) -> bool {
        self is Success || self is Suboptimal
    }

    /// Whether the surface has to be configured anew.
    pub open spec fn stale(self) -> bool {
        self is Suboptimal || self is Outdated || self is Lost
    }
}

/// What a frame draws: the state shader reads the texture `read` and writes the texture
/// `write`; the display shader then reads `write`.
#[derive(Clone, Copy, Debug, PartialEq, Eq, Structural)]
pub struct Passes {
    pub read: ReadState,
    pub write: ReadState,
}

/// What to do about a frame.
#[derive(Debug)]
pub struct DrawPlan {
    /// What to draw, if anything.
    pub passes: Option<Passes>,
    /// Whether the surface has to be configured anew.
    pub needs_reconfigure: bool,
    /// What to tell the user.
    pub report: Option<String>,
}

/// The passes of a frame that finds its state in the texture `state`, if it can be drawn.
pub open spec fn passes(state: ReadState, status: SurfaceStatus) -> Option<Passes> {
    if status.drawable() {
        Some(Passes { read: state, write: state.other() })
    } else {
        None
    }
}

/// The texture that holds the state after a frame.
pub open spec fn state_after(state: ReadState, status: SurfaceStatus) -> ReadState {
    if status.drawable() {
        state.other()
    } else {
        state
    }
}

/// The wallpaper of an output. The compositor's objects are known by their identifiers; `handle`
/// is what belongs to them on the graphics card.
pub struct Wallpaper<H> {
    pub output: u32,
    pub layer: u32,
    pub surface: u32,
    pub width: u32,
    pub shrink_horizontal: u32,
    pub height: u32,
    pub shrink_vertical: u32,
    pub read_state: ReadState,
    pub handle: H,
}

/// The width of a surface before the compositor has named one.
pub const INITIAL_WIDTH: u32 = 1920;

/// The height of a surface before the compositor has named one.
pub const INITIAL_HEIGHT: u32 = 1080;

impl<H> Wallpaper<H> {
    /// A wallpaper can divide its size.
    pub open spec fn wf(&self) -> bool {
        self.shrink_horizontal > 0 && self.shrink_vertical > 0
    }

    /// A new wallpaper, in its initial size.
    pub fn new(
        output: u32,
        layer: u32,
        surface: u32,
        shrink_horizontal: u32,
        shrink_vertical: u32,
        handle: H,
    ) -> (res: Self)
        requires
            shrink_horizontal > 0,
            shrink_vertical > 0,
        ensures
            res == (Wallpaper {
                output,
                layer,
                surface,
                width: INITIAL_WIDTH,
                shrink_horizontal,
                height: INITIAL_HEIGHT,
                shrink_vertical,
                read_state: ReadState::StateA,
                handle,
            }),
            res.wf(),
            res.surface_plan().state == shrunk(
                INITIAL_WIDTH,
                shrink_horizontal,
                INITIAL_HEIGHT,
                shrink_vertical,
            ),
    {
        Wallpaper {
            output,
            layer,
            surface,
            width: INITIAL_WIDTH,
            shrink_horizontal,
            height: INITIAL_HEIGHT,
            shrink_vertical,
            read_state: ReadState::StateA,
            handle,
        }
    }

    /// The output that this wallpaper is for.
    pub fn output(&self) -> (res: u32)
        ensures
            res == self.output,
    {
        self.output
    }

    /// The layer that it lies on.
    pub fn layer(&self) -> (res: u32)
        ensures
            res == self.layer,
    {
        self.layer
    }

    /// The surface that it is drawn on.
    pub fn wl_surface(&self) -> (res: u32)
        ensures
            res == self.surface,
    {
        self.surface
    }

    /// Takes a new size, to be configured.
    pub fn set_size(&mut self, width: u32, height: u32)
        ensures
            *final(self) == (Wallpaper { width, height, ..*old(self) }),
    {
        self.width = width;
        self.height = height;
    }

    /// How to configure a surface of this size.
    pub open spec fn surface_plan(&self) -> SurfacePlan {
        SurfacePlan {
            surface: Extent {
                width: if self.width == 0 {
                    1
                } else {
                    self.width
                },
                height: if self.height == 0 {
                    1
                } else {
                    self.height
                },
            },
            desired_maximum_frame_latency: 2,
            state: shrunk(
                self.width,
                self.shrink_horizontal,
                self.height,
                self.shrink_vertical,
            ),
        }
    }

    /// Configures the surface in its size. The state starts anew, in the first texture.
    pub fn reconfigure(&mut self) -> (res: SurfacePlan)
        requires
            old(self).wf(),
        ensures
            *final(self) == (Wallpaper { read_state: ReadState::StateA, ..*old(self) }),
            res == old(self).surface_plan(),
    {
        let surface = Extent {
            width: if self.width == 0 {
                1
            } else {
                self.width
            },
            height: if self.height == 0 {
                1
            } else {
                self.height
            },
        };
        let state = state_size(
            self.width,
            self.shrink_horizontal,
            self.height,
            self.shrink_vertical,
        );
        self.read_state = ReadState::StateA;
        SurfacePlan { surface, desired_maximum_frame_latency: 2, state }
    }

    /// The uniform block for this wallpaper: the common one, with the size of this surface.
    pub fn frame_params(&self, params: &Params) -> (res: Params)
        ensures
            res == (Params { resolution: res.resolution, ..*params }),
            res.resolution@[0].bits == crate::single::nearest_bits(self.width as nat, 1),
            res.resolution@[1].bits == crate::single::nearest_bits(self.height as nat, 1),
    {
        let mut res = *params;
        res.resolution =
        [Single::from_ratio(self.width, 1), Single::from_ratio(self.height, 1)];
        res
    }

    /// Decides what a frame draws, given what came of asking for a texture. A frame that is
    /// drawn moves the state to the other texture.
    pub fn draw(&mut self, status: SurfaceStatus) -> (res: DrawPlan)
        ensures
            *final(self) == (Wallpaper {
                read_state: state_after(old(self).read_state, status),
                ..*old(self)
            }),
            res.passes == passes(old(self).read_state, status),
            res.needs_reconfigure == status.stale(),
            match res.report {
                Some(text) => status is Validation && text@ == "surface validation error"@,
                None => !(status is Validation),
            },
    {
        let needs_reconfigure = match status {
            SurfaceStatus::Success => false,
            SurfaceStatus::Suboptimal => true,
            SurfaceStatus::Timeout | SurfaceStatus::Occluded => {
                return DrawPlan { passes: None, needs_reconfigure: false, report: None };
            },
            SurfaceStatus::Outdated | SurfaceStatus::Lost => {
                return DrawPlan { passes: None, needs_reconfigure: true, report: None };
            },
            SurfaceStatus::Validation => {
                let text = "surface validation error".to_owned();
                return DrawPlan { passes: None, needs_reconfigure: false, report: Some(text) };
            },
        };
        let read = self.read_state;
        let write = read.swap();
        self.read_state = write;
        DrawPlan { passes: Some(Passes { read, write }), needs_reconfigure, report: None }
    }
}

/// What can happen to a wallpaper: a frame of it is to be drawn, or its surface is configured.
#[derive(Clone, Copy, Debug, PartialEq, Eq, Structural)]
pub enum SurfaceEvent {
    Draw { status: SurfaceStatus },
    Reconfigure,
}

/// The texture that holds the state after an event, as [`Wallpaper::draw`] and
/// [`Wallpaper::reconfigure`] leave it.
pub open spec fn state_after_event(state: ReadState, event: SurfaceEvent) -> ReadState {
    match event {
        SurfaceEvent::Draw { status } => state_after(state, status),
        SurfaceEvent::Reconfigure => ReadState::StateA,
    }
}

/// The texture that holds the state after events in a row.
pub open spec fn state_then(state: ReadState, events: Seq<SurfaceEvent>) -> ReadState
    decreases events.len(),
{
    if events.len() == 0 {
        state
    } else {
        state_after_event(state_then(state, events.drop_last()), events.last())
    }
}

/// The passes of the frame that the `i`-th event draws, if it draws one.
pub open spec fn frame_at(state: ReadState, events: Seq<SurfaceEvent>, i: int) -> Option<Passes> {
    match events[i] {
        SurfaceEvent::Draw { status } => passes(state_then(state, events.take(i)), status),
        SurfaceEvent::Reconfigure => None,
    }
}

/// Whether an event writes the state: it draws a frame, or configures the surface.
pub open spec fn writes_state(event: SurfaceEvent) -> bool {
    match event {
        SurfaceEvent::Draw { status } => status.drawable(),
        SurfaceEvent::Reconfigure => true,
    }
}

/// Whether none of the events from `from` on and before `to` writes the state.
pub open spec fn untouched(events: Seq<SurfaceEvent>, from: int, to: int) -> bool {
    forall|k: int| from <= k < to ==> !writes_state(#[trigger] events[k])
}

/// Whether the `j`-th event is the last one before the `i`-th that writes the state.
pub open spec fn last_write_before(events: Seq<SurfaceEvent>, j: int, i: int) -> bool {
    0 <= j < i && writes_state(events[j]) && untouched(events, j + 1, i)
}

/// Events that do not write the state leave it where it is.
proof fn lemma_untouched_state_stays(
    state: ReadState,
    events: Seq<SurfaceEvent>,
    from: int,
    to: int,
)
    requires
        0 <= from <= to <= events.len(),
        untouched(events, from, to),
    ensures
        state_then(state, events.take(to)) == state_then(state, events.take(from)),
    decreases to - from,
{
    if from < to {
        assert(events.take(to).drop_last() =~= events.take(to - 1));
        assert(!writes_state(events[to - 1]));
        lemma_untouched_state_stays(state, events, from, to - 1);
    }
}

/// However frames are drawn, frames are skipped and the surface is configured, no frame reads the
/// texture that it writes. The first frame drawn after the surface was configured reads the
/// first texture; every other one reads what the frame drawn before it wrote, or the initial
/// state where there was none.
pub proof fn law_state_flows_from_frame_to_frame(
    state: ReadState,
    events: Seq<SurfaceEvent>,
    i: int,
)
    requires
        0 <= i < events.len(),
        frame_at(state, events, i) is Some,
    ensures
        ({
            let frame = frame_at(state, events, i)->0;
            &&& frame.read != frame.write
            &&& untouched(events, 0, i) ==> frame.read == state
            &&& forall|j: int| #[trigger]
                last_write_before(events, j, i) ==> frame.read == match events[j] {
                    SurfaceEvent::Reconfigure => ReadState::StateA,
                    SurfaceEvent::Draw { .. } => frame_at(state, events, j)->0.write,
                }
            &&& forall|j: int| #[trigger]
                last_write_before(events, j, i) && events[j] is Draw ==> frame_at(
                    state,
                    events,
                    j,
                ) is Some
        }),
{
    if untouched(events, 0, i) {
        lemma_untouched_state_stays(state, events, 0, i);
        assert(events.take(0).len() == 0);
    }
    assert forall|j: int| #[trigger] last_write_before(events, j, i) implies state_then(
        state,
        events.take(i),
    ) == state_after_event(state_then(state, events.take(j)), events[j]) by {
        lemma_untouched_state_stays(state, events, j + 1, i);
        assert(events.take(j + 1).drop_last() =~= events.take(j));
        assert(events.take(j + 1).last() == events[j]);
    }
}

/// Whether `part` is how often `shrink` fits into `whole`.
pub open spec fn fits_times(whole: u32, shrink: u32, part: u32) -> bool {
    part * shrink <= whole < (part + 1) * shrink
}

/// A quotient is how often the divisor fits.
pub(crate) proof fn lemma_quotient_fits(whole: u32, shrink: u32)
    requires
        shrink > 0,
    ensures
        fits_times(whole, shrink, (whole / shrink) as u32),
{
    let q = whole / shrink;
    vstd::arithmetic::div_mod::lemma_fundamental_div_mod(whole as int, shrink as int);
    vstd::arithmetic::div_mod::lemma_div_is_ordered_by_denominator(whole as int, 1, shrink as int);
    assert(shrink * q == q * shrink) by (nonlinear_arith);
    assert((q + 1) * shrink == q * shrink + shrink) by (nonlinear_arith);
}

/// The state has as many pixels in each direction as the shrink factor of that direction fits
/// into the surface.
pub proof fn law_state_is_shrunk_by_its_factors(
    width: u32,
    shrink_horizontal: u32,
    height: u32,
    shrink_vertical: u32,
    res: Extent,
)
    requires
        shrink_horizontal > 0,
        shrink_vertical > 0,
        call_ensures(state_size, (width, shrink_horizontal, height, shrink_vertical), res),
    ensures
        fits_times(width, shrink_horizontal, res.width),
        fits_times(height, shrink_vertical, res.height),
{
    lemma_quotient_fits(width, shrink_horizontal);
    lemma_quotient_fits(height, shrink_vertical);
}

/// Swapping gives the texture that is not the one swapped.
pub proof fn law_swap_gives_the_other_texture(state: ReadState, res: ReadState)
    requires
        call_ensures(ReadState::swap, (state,), res),
    ensures
        res != state,
{
}

/// The format chosen is an sRGB one where there is one, and none before it is as good; where
/// there is none, it is the first. The mode is the mailbox wherever that can be had, and the queue
/// that every surface has otherwise. The alpha mode is the first.
pub proof fn law_surface_choice_is_best(
    srgb: &Vec<bool>,
    present_modes: &Vec<PresentMode>,
    alpha_modes: usize,
    res: SurfaceChoice,
)
    requires
        call_ensures(choose_surface, (srgb, present_modes, alpha_modes), res),
    ensures
        res.format < srgb@.len(),
        forall|i: int| 0 <= i < res.format ==> !#[trigger] srgb@[i],
        !srgb@[res.format as int] ==> res.format == 0 && forall|i: int|
            0 <= i < srgb@.len() ==> !#[trigger] srgb@[i],
        res.present_mode == PresentMode::Mailbox || res.present_mode == PresentMode::Fifo,
        res.present_mode == PresentMode::Mailbox <==> exists|i: int|
            0 <= i < present_modes@.len() && #[trigger] present_modes@[i] == PresentMode::Mailbox,
        res.alpha_mode == 0,
{
    if !srgb@[res.format as int] {
        assert forall|i: int| 0 <= i < srgb@.len() implies !#[trigger] srgb@[i] by {
            assert(srgb@.contains(true) || !srgb@[i]);
        }
    }
    assert forall|i: int| 0 <= i < res.format implies !#[trigger] srgb@[i] by {}
}

/// A new wallpaper is for the output, the layer and the surface that it is made for, reads the
/// first texture first, and has the shrink factors it was given.
pub proof fn law_new_wallpaper_is_for_its_output<H>(
    output: u32,
    layer: u32,
    surface: u32,
    shrink_horizontal: u32,
    shrink_vertical: u32,
    handle: H,
    res: Wallpaper<H>,
)
    requires
        call_ensures(
            Wallpaper::<H>::new,
            (output, layer, surface, shrink_horizontal, shrink_vertical, handle),
            res,
        ),
    ensures
        res.output == output,
        res.layer == layer,
        res.surface == surface,
        res.shrink_horizontal == shrink_horizontal,
        res.shrink_vertical == shrink_vertical,
        res.width == 1920,
        res.height == 1080,
        res.read_state == ReadState::StateA,
        res.handle == handle,
{
}

/// A wallpaper tells the output, the layer and the surface it has, each by its own name.
pub proof fn law_wallpaper_tells_what_it_is_for<H>(
    w: &Wallpaper<H>,
    output: u32,
    layer: u32,
    surface: u32,
)
    requires
        call_ensures(Wallpaper::<H>::output, (w,), output),
        call_ensures(Wallpaper::<H>::layer, (w,), layer),
        call_ensures(Wallpaper::<H>::wl_surface, (w,), surface),
    ensures
        output == w.output,
        layer == w.layer,
        surface == w.surface,
{
}

/// After taking a size, a wallpaper is configured in exactly that size, but for a direction that
/// would be empty, which gets one pixel; its state is that size shrunk, and starts over in the
/// first texture. Nothing else of the wallpaper changes.
pub proof fn law_size_is_configured_as_taken<H>(
    w: &mut Wallpaper<H>,
    width: u32,
    height: u32,
    sized: &mut Wallpaper<H>,
    plan: SurfacePlan,
)
    requires
        w.shrink_horizontal > 0,
        w.shrink_vertical > 0,
        call_ensures(Wallpaper::<H>::set_size, (w, width, height), ()),
        *sized == *final(w),
        call_ensures(Wallpaper::<H>::reconfigure, (sized,), plan),
    ensures
        final(w).width == width,
        final(w).height == height,
        final(w).read_state == old(w).read_state,
        width > 0 ==> plan.surface.width == width,
        width == 0 ==> plan.surface.width == 1,
        height > 0 ==> plan.surface.height == height,
        height == 0 ==> plan.surface.height == 1,
        plan.desired_maximum_frame_latency == 2,
        fits_times(width, old(w).shrink_horizontal, plan.state.width),
        fits_times(height, old(w).shrink_vertical, plan.state.height),
        final(sized).read_state == ReadState::StateA,
        final(sized).width == width,
        final(sized).height == height,
        final(sized).output == old(w).output,
        final(sized).layer == old(w).layer,
        final(sized).surface == old(w).surface,
        final(sized).shrink_horizontal == old(w).shrink_horizontal,
        final(sized).shrink_vertical == old(w).shrink_vertical,
        final(sized).handle == old(w).handle,
{
    lemma_quotient_fits(width, w.shrink_horizontal);
    lemma_quotient_fits(height, w.shrink_vertical);
}

/// The block of a frame tells the shaders the size of this wallpaper, in the numbers nearest to
/// it, and everything else as the common block does.
pub proof fn law_frame_is_told_its_own_size<H>(w: &Wallpaper<H>, params: &Params, res: Params)
    requires
        call_ensures(Wallpaper::<H>::frame_params, (w, params), res),
    ensures
        crate::single::is_nearest(res.resolution@[0].bits, w.width as nat, 1),
        crate::single::is_nearest(res.resolution@[1].bits, w.height as nat, 1),
        res.time == params.time,
        res.time_scale == params.time_scale,
        res.c1 == params.c1,
        res.c2 == params.c2,
        res.c3 == params.c3,
        res.c4 == params.c4,
        res.mouse == params.mouse,
        res.mouse_active == params.mouse_active,
{
    crate::single::lemma_nearest_bits_are_nearest(w.width, 1);
    crate::single::lemma_nearest_bits_are_nearest(w.height, 1);
}

/// Whether there is a texture to draw on decides whether a frame is drawn; a surface that has
/// changed, or is lost, is to be configured anew, whether or not it was drawn on. A frame reads
/// the state where it is, writes it to the other texture and leaves it there; a frame that is
/// not drawn leaves it where it was. Nothing else of the wallpaper changes.
pub proof fn law_frame_moves_the_state<H>(w: &mut Wallpaper<H>, status: SurfaceStatus, res: DrawPlan)
    requires
        call_ensures(Wallpaper::<H>::draw, (w, status), res),
    ensures
        res.passes is Some <==> (status == SurfaceStatus::Success || status
            == SurfaceStatus::Suboptimal),
        res.passes is Some ==> res.passes->0.read == old(w).read_state && res.passes->0.write
            != old(w).read_state && final(w).read_state == res.passes->0.write,
        res.passes is None ==> final(w).read_state == old(w).read_state,
        res.needs_reconfigure <==> (status == SurfaceStatus::Suboptimal || status
            == SurfaceStatus::Outdated || status == SurfaceStatus::Lost),
        res.report is Some <==> status == SurfaceStatus::Validation,
        final(w).width == old(w).width,
        final(w).height == old(w).height,
        final(w).output == old(w).output,
        final(w).layer == old(w).layer,
        final(w).surface == old(w).surface,
        final(w).shrink_horizontal == old(w).shrink_horizontal,
        final(w).shrink_vertical == old(w).shrink_vertical,
        final(w).handle == old(w).handle,
{
}

/// Of two frames in a row that are both drawn, the second reads what the first wrote, and writes
/// what the first read.
pub proof fn law_frames_take_turns<H>(
    w: &mut Wallpaper<H>,
    first: SurfaceStatus,
    one: DrawPlan,
    next: &mut Wallpaper<H>,
    second: SurfaceStatus,
    two: DrawPlan,
)
    requires
        call_ensures(Wallpaper::<H>::draw, (w, first), one),
        *next == *final(w),
        call_ensures(Wallpaper::<H>::draw, (next, second), two),
        one.passes is Some,
        two.passes is Some,
    ensures
        two.passes->0.read == one.passes->0.write,
        two.passes->0.write == one.passes->0.read,
{
}

} // verus!
