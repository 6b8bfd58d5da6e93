//! The renderer: what commands and time do to the uniforms, which wallpapers there are, and in
//! which order they are drawn and configured.
use crate::config::Config;
use crate::ipc::AppCommand;
use crate::params::{Params, UniformState};
use crate::schedule::{first_task, Event, Task};
use crate::single::{Single, ONE_BITS, ZERO_BITS};
use crate::text::same_text;
use crate::uniform::ColorValue;
use crate::wallpaper::{state_size, Extent, Wallpaper, INITIAL_HEIGHT, INITIAL_WIDTH};
use vstd::prelude::*;
use vstd::string::*;

verus! {

/// The colours of the uniforms, as sequences of channels, in their order.
pub type Colors = Seq<Seq<Single>>;

/// The colours of a state.
pub open spec fn colors(state: UniformState) -> Colors {
    seq![state.c1@, state.c2@, state.c3@, state.c4@]
}

/// The place of the colour with the given name, if there is one.
pub open spec fn color_slot(name: Seq<char>) -> Option<int> {
    if name == "c1"@ {
        Some(0)
    } else if name == "c2"@ {
        Some(1)
    } else if name == "c3"@ {
        Some(2)
    } else if name == "c4"@ {
        Some(3)
    } else {
        None
    }
}

/// What commands can change: the colours that the uniforms move towards, and whether the
/// renderer is to end.
#[verifier::ext_equal]
pub struct Controls {
    pub target: Colors,
    pub exit: bool,
}

/// Whether a command brings a shader.
pub open spec fn brings_shader(cmd: AppCommand) -> bool {
    cmd is DisplayShader || cmd is StateShader || cmd is InitShader
}

/// Whether a command brings a shader. The renderer takes none while it runs.
pub fn command_brings_shader(cmd: &AppCommand) -> (res: bool)
    ensures
        res == brings_shader(*cmd),
{
    match cmd {
        AppCommand::DisplayShader { .. } => true,
        AppCommand::StateShader { .. } => true,
        AppCommand::InitShader { .. } => true,
        AppCommand::SetUniform { .. } => false,
        AppCommand::Stop => false,
    }
}

/// What a command makes of the controls. A colour that does not exist is left alone.
pub open spec fn step(controls: Controls, cmd: AppCommand) -> Controls {
    match cmd {
        AppCommand::SetUniform { name, value } => match color_slot(name@) {
            Some(slot) => Controls {
                target: controls.target.update(slot, value.rgba()),
                ..controls
            },
            None => controls,
        },
        AppCommand::Stop => Controls { exit: true, ..controls },
        _ => controls,
    }
}

/// What commands in a row make of the controls.
pub open spec fn run(controls: Controls, cmds: Seq<AppCommand>) -> Controls
    decreases cmds.len(),
{
    if cmds.len() == 0 {
        controls
    } else {
        step(run(controls, cmds.drop_last()), cmds.last())
    }
}

/// The error of setting a uniform that does not exist.
pub open spec fn unsupported(name: Seq<char>) -> Seq<char> {
    "unsupported assignment: "@ + name
}

/// What the user is told of a command, if anything.
pub open spec fn complaint(cmd: AppCommand) -> Option<Seq<char>> {
    match cmd {
        AppCommand::SetUniform { name, .. } => if color_slot(name@) is None {
            Some("uniform update failed: "@ + unsupported(name@))
        } else {
            None
        },
        _ => None,
    }
}

/// What the user is told of commands in a row.
pub open spec fn complaints(cmds: Seq<AppCommand>) -> Seq<Seq<char>>
    decreases cmds.len(),
{
    if cmds.len() == 0 {
        Seq::empty()
    } else {
        match complaint(cmds.last()) {
            Some(text) => complaints(cmds.drop_last()).push(text),
            None => complaints(cmds.drop_last()),
        }
    }
}

/// The texts in a row.
pub open spec fn texts(messages: Seq<String>) -> Seq<Seq<char>> {
    messages.map_values(|m: String| m@)
}

/// How far the uniforms are to move towards their target.
#[derive(Clone, Copy, Debug, PartialEq, Eq, Structural)]
pub enum Ease {
    /// All the way.
    Jump,
    /// As far as decaying for this many nanoseconds takes them.
    Decay { elapsed: u64 },
}

/// What the renderer knows besides the compositor's and the graphics card's own state. Times
/// are in nanoseconds since it started.
pub struct App<H> {
    pub shrink_horizontal: u32,
    pub shrink_vertical: u32,
    pub decay_time: Single,
    pub frame_time: Single,
    pub current_uniforms: UniformState,
    pub target_uniforms: UniformState,
    pub last_uniform_update: u64,
    pub wallpapers: Vec<Wallpaper<H>>,
    pub exit: bool,
}

/// Whether `state` is the default one but for its colours, which are those of `config`.
pub open spec fn starts_with(state: UniformState, config: Config) -> bool {
    &&& colors(state) == seq![config.c1.rgba(), config.c2.rgba(), config.c3.rgba(), config.c4.rgba()]
    &&& state.time_scale.bits == ONE_BITS
    &&& state.mouse@ == seq![
        crate::single::single(crate::single::HALF_BITS),
        crate::single::single(crate::single::HALF_BITS),
    ]
    &&& state.monitor == 0
}

/// Whether no two wallpapers are for the same output, and each can divide its size.
pub open spec fn wallpapers_wf<H>(wallpapers: Seq<Wallpaper<H>>) -> bool {
    &&& forall|i: int, j: int|
        0 <= i < j < wallpapers.len() ==> (#[trigger] wallpapers[i]).output
            != (#[trigger] wallpapers[j]).output
    &&& forall|i: int| 0 <= i < wallpapers.len() ==> (#[trigger] wallpapers[i]).wf()
}

/// Whether `res` is the place of the first wallpaper that `pred` holds of, or none where there
/// is no such wallpaper.
pub open spec fn first_such<H>(
    wallpapers: Seq<Wallpaper<H>>,
    pred: spec_fn(Wallpaper<H>) -> bool,
    res: Option<usize>,
) -> bool {
    match res {
        Some(i) => i < wallpapers.len() && pred(wallpapers[i as int]) && forall|j: int|
            0 <= j < i ==> !pred(#[trigger] wallpapers[j]),
        None => forall|j: int| 0 <= j < wallpapers.len() ==> !pred(#[trigger] wallpapers[j]),
    }
}

/// Whether there is a wallpaper for an output.
pub open spec fn covers<H>(wallpapers: Seq<Wallpaper<H>>, output: u32) -> bool {
    exists|i: int| 0 <= i < wallpapers.len() && (#[trigger] wallpapers[i]).output == output
}

/// What an event of the compositor leads to: what to tell the user, the uniform block, the place
/// of the wallpaper that the event is about, if there is one, and what is to be done with it.
#[derive(Debug)]
pub struct Turn {
    pub messages: Vec<String>,
    pub params: Params,
    pub wallpaper: Option<usize>,
    pub task: Task,
}

/// Whether `params` is the common uniform block at a time. Each wallpaper puts its own size in;
/// the mouse rests, as nothing follows it.
pub open spec fn common_params(state: UniformState, time: Single, params: Params) -> bool {
    &&& params.resolution@ == seq![
        crate::single::single(ONE_BITS),
        crate::single::single(ONE_BITS),
    ]
    &&& params.time == time
    &&& params.time_scale == state.time_scale
    &&& params.c1 == state.c1
    &&& params.c2 == state.c2
    &&& params.c3 == state.c3
    &&& params.c4 == state.c4
    &&& params.mouse == state.mouse
    &&& params.mouse_active.bits == ZERO_BITS
}

/// The size that a compositor asks for, in one direction; zero leaves it to the wallpaper.
pub open spec fn asked_size(asked: u32) -> u32 {
    if asked == 0 {
        256
    } else {
        asked
    }
}

fn size_or_default(asked: u32) -> (res: u32)
    ensures
        res == asked_size(asked),
{
    if asked == 0 {
        256
    } else {
        asked
    }
}

impl<H> App<H> {
    /// No two wallpapers are for the same output, and each can divide its size.
    pub open spec fn wf(&self) -> bool {
        wallpapers_wf(self.wallpapers@)
    }

    /// What commands can change.
    pub open spec fn controls(&self) -> Controls {
        Controls { target: colors(self.target_uniforms), exit: self.exit }
    }

    /// Whether `self` is `before` but for what commands can change.
    pub open spec fn changed_by_commands_only(&self, before: &Self) -> bool {
        &&& self.shrink_horizontal == before.shrink_horizontal
        &&& self.shrink_vertical == before.shrink_vertical
        &&& self.decay_time == before.decay_time
        &&& self.frame_time == before.frame_time
        &&& self.current_uniforms == before.current_uniforms
        &&& self.target_uniforms.time_scale == before.target_uniforms.time_scale
        &&& self.target_uniforms.mouse == before.target_uniforms.mouse
        &&& self.target_uniforms.monitor == before.target_uniforms.monitor
        &&& self.last_uniform_update == before.last_uniform_update
        &&& self.wallpapers == before.wallpapers
    }

    /// The renderer at its start. The uniforms begin at their target.
    pub fn new(config: &Config, now: u64) -> (res: Self)
        ensures
            res.wf(),
            res.shrink_horizontal == config.state_shrink_h,
            res.shrink_vertical == config.state_shrink_v,
            res.decay_time == config.decay_time,
            res.frame_time == config.frame_time,
            starts_with(res.current_uniforms, *config),
            res.target_uniforms == res.current_uniforms,
            res.last_uniform_update == now,
            res.wallpapers@.len() == 0,
            !res.exit,
    {
        let mut current_uniforms = UniformState::default();
        current_uniforms.c1 = config.c1.into();
        current_uniforms.c2 = config.c2.into();
        current_uniforms.c3 = config.c3.into();
        current_uniforms.c4 = config.c4.into();
        App {
            shrink_horizontal: config.state_shrink_h,
            shrink_vertical: config.state_shrink_v,
            decay_time: config.decay_time,
            frame_time: config.frame_time,
            current_uniforms,
            target_uniforms: current_uniforms,
            last_uniform_update: now,
            wallpapers: Vec::new(),
            exit: false,
        }
    }

    /// How far an update at a time is to take the uniforms. Without a decay time they jump. A
    /// clock that runs backwards counts as one that stands still.
    pub open spec fn ease(&self, now: u64) -> Ease {
        if crate::single::at_most_zero(self.decay_time.bits) {
            Ease::Jump
        } else if now >= self.last_uniform_update {
            Ease::Decay { elapsed: (now - self.last_uniform_update) as u64 }
        } else {
            Ease::Decay { elapsed: 0 }
        }
    }

    /// Blends the uniforms towards their target, as far as the time since the last update takes
    /// them.
    pub fn update_uniforms<F: Fn(Ease, Single, Single) -> Single>(&mut self, now: u64, blend: &F)
        requires
            forall|e: Ease, a: Single, b: Single| #[trigger] call_requires(*blend, (e, a, b)),
        ensures
            *final(self) == (App {
                current_uniforms: final(self).current_uniforms,
                last_uniform_update: now,
                ..*old(self)
            }),
            crate::params::mixed(
                *blend,
                old(self).ease(now),
                old(self).current_uniforms,
                old(self).target_uniforms,
                final(self).current_uniforms,
            ),
    {
        let elapsed: u64 = if now >= self.last_uniform_update {
            now - self.last_uniform_update
        } else {
            0
        };
        self.last_uniform_update = now;
        let ease = if self.decay_time.is_at_most_zero() {
            Ease::Jump
        } else {
            Ease::Decay { elapsed }
        };
        let mixed = self.current_uniforms.mix(&self.target_uniforms, ease, blend);
        self.current_uniforms = mixed;
    }

    /// The uniform block that wallpapers have in common.
    pub fn make_params(&self, time: Single) -> (res: Params)
        ensures
            common_params(self.current_uniforms, time, res),
    {
        let one = Single { bits: ONE_BITS };
        Params {
            resolution: [one, one],
            time,
            time_scale: self.current_uniforms.time_scale,
            c1: self.current_uniforms.c1,
            c2: self.current_uniforms.c2,
            c3: self.current_uniforms.c3,
            c4: self.current_uniforms.c4,
            mouse: self.current_uniforms.mouse,
            mouse_active: Single { bits: ZERO_BITS },
        }
    }

    /// Sets the target of a colour, or says that there is no such colour.
    pub fn apply_color_update(&mut self, name: &str, value: ColorValue) -> (res: Result<(), String>)
        ensures
            final(self).changed_by_commands_only(old(self)),
            final(self).exit == old(self).exit,
            match color_slot(name@) {
                Some(slot) => res is Ok && colors(final(self).target_uniforms) == colors(
                    old(self).target_uniforms,
                ).update(slot, value.rgba()),
                None => res matches Err(message) && message@ == unsupported(name@)
                    && *final(self) == *old(self),
            },
    {
        let ghost before = colors(self.target_uniforms);
        if same_text(name, "c1") {
            self.target_uniforms.c1 = value.into();
            assert(colors(self.target_uniforms) =~= before.update(0, value.rgba()));
        } else if same_text(name, "c2") {
            self.target_uniforms.c2 = value.into();
            assert(colors(self.target_uniforms) =~= before.update(1, value.rgba()));
        } else if same_text(name, "c3") {
            self.target_uniforms.c3 = value.into();
            assert(colors(self.target_uniforms) =~= before.update(2, value.rgba()));
        } else if same_text(name, "c4") {
            self.target_uniforms.c4 = value.into();
            assert(colors(self.target_uniforms) =~= before.update(3, value.rgba()));
        } else {
            return Err("unsupported assignment: ".to_owned().concat(name));
        }
        Ok(())
    }

    /// Follows a command, and says what to tell the user of it.
    pub fn handle_command(&mut self, cmd: &AppCommand) -> (res: Option<String>)
        requires
            !brings_shader(*cmd),
        ensures
            final(self).changed_by_commands_only(old(self)),
            final(self).controls() == step(old(self).controls(), *cmd),
            match res {
                Some(text) => complaint(*cmd) == Some(text@),
                None => complaint(*cmd) is None,
            },
    {
        match cmd {
            AppCommand::SetUniform { name, value } => {
                match self.apply_color_update(name.as_str(), *value) {
                    Ok(()) => None,
                    Err(message) => Some(
                        "uniform update failed: ".to_owned().concat(message.as_str()),
                    ),
                }
            },
            AppCommand::Stop => {
                self.exit = true;
                None
            },
            _ => None,
        }
    }

    /// Follows the commands that have come in, in their order, and says what to tell the user.
    pub fn handle_pending_commands(&mut self, cmds: &Vec<AppCommand>) -> (res: Vec<String>)
        requires
            forall|i: int| 0 <= i < cmds@.len() ==> !brings_shader(#[trigger] cmds@[i]),
        ensures
            final(self).changed_by_commands_only(old(self)),
            final(self).controls() == run(old(self).controls(), cmds@),
            texts(res@) == complaints(cmds@),
    {
        let mut res: Vec<String> = Vec::new();
        let mut i: usize = 0;
        assert(texts(res@) =~= complaints(cmds@.take(0)));
        while i < cmds.len()
            invariant
                i <= cmds@.len(),
                forall|k: int| 0 <= k < cmds@.len() ==> !brings_shader(#[trigger] cmds@[k]),
                self.changed_by_commands_only(old(self)),
                self.controls() == run(old(self).controls(), cmds@.take(i as int)),
                texts(res@) == complaints(cmds@.take(i as int)),
            decreases cmds@.len() - i,
        {
            assert(cmds@.take(i + 1).drop_last() =~= cmds@.take(i as int));
            let ghost said = res@;
            match self.handle_command(&cmds[i]) {
                Some(text) => {
                    res.push(text);
                    assert(texts(res@) =~= texts(said).push(text@));
                },
                None => {},
            }
            i = i + 1;
        }
        assert(cmds@.take(i as int) =~= cmds@);
        res
    }

    /// The place of the wallpaper that is drawn on a surface.
    pub fn wallpaper_index_by_surface(&self, surface: u32) -> (res: Option<usize>)
        ensures
            first_such(self.wallpapers@, |w: Wallpaper<H>| w.surface == surface, res),
    {
        let mut i: usize = 0;
        while i < self.wallpapers.len()
            invariant
                i <= self.wallpapers@.len(),
                forall|j: int| 0 <= j < i ==> (#[trigger] self.wallpapers@[j]).surface != surface,
            decreases self.wallpapers@.len() - i,
        {
            if self.wallpapers[i].wl_surface() == surface {
                return Some(i);
            }
            i = i + 1;
        }
        None
    }

    /// The place of the wallpaper that lies on a layer.
    pub fn wallpaper_index_by_layer(&self, layer: u32) -> (res: Option<usize>)
        ensures
            first_such(self.wallpapers@, |w: Wallpaper<H>| w.layer == layer, res),
    {
        let mut i: usize = 0;
        while i < self.wallpapers.len()
            invariant
                i <= self.wallpapers@.len(),
                forall|j: int| 0 <= j < i ==> (#[trigger] self.wallpapers@[j]).layer != layer,
            decreases self.wallpapers@.len() - i,
        {
            if self.wallpapers[i].layer() == layer {
                return Some(i);
            }
            i = i + 1;
        }
        None
    }

    /// Whether there is a wallpaper for an output.
    pub fn has_wallpaper_for(&self, output: u32) -> (res: bool)
        ensures
            res == covers(self.wallpapers@, output),
    {
        let mut i: usize = 0;
        while i < self.wallpapers.len()
            invariant
                i <= self.wallpapers@.len(),
                forall|j: int| 0 <= j < i ==> (#[trigger] self.wallpapers@[j]).output != output,
            decreases self.wallpapers@.len() - i,
        {
            if self.wallpapers[i].output() == output {
                return true;
            }
            i = i + 1;
        }
        false
    }

    /// The size of the state textures that a new wallpaper starts with.
    pub fn initial_state(&self) -> (res: Extent)
        requires
            self.shrink_horizontal > 0,
            self.shrink_vertical > 0,
        ensures
            res == crate::wallpaper::shrunk(
                INITIAL_WIDTH,
                self.shrink_horizontal,
                INITIAL_HEIGHT,
                self.shrink_vertical,
            ),
    {
        state_size(INITIAL_WIDTH, self.shrink_horizontal, INITIAL_HEIGHT, self.shrink_vertical)
    }

    /// Adds a wallpaper for an output that has none, and says whether it did.
    pub fn create_wallpaper_for_output(
        &mut self,
        output: u32,
        layer: u32,
        surface: u32,
        handle: H,
    ) -> (res: bool)
        requires
            covers(old(self).wallpapers@, output) || (old(self).shrink_horizontal > 0 && old(
                self,
            ).shrink_vertical > 0),
        ensures
            old(self).wf() ==> final(self).wf(),
            res == !covers(old(self).wallpapers@, output),
            *final(self) == (App { wallpapers: final(self).wallpapers, ..*old(self) }),
            !res ==> final(self).wallpapers@ == old(self).wallpapers@,
            res ==> final(self).wallpapers@ == old(self).wallpapers@.push(
                Wallpaper {
                    output,
                    layer,
                    surface,
                    width: INITIAL_WIDTH,
                    shrink_horizontal: old(self).shrink_horizontal,
                    height: INITIAL_HEIGHT,
                    shrink_vertical: old(self).shrink_vertical,
                    read_state: crate::wallpaper::ReadState::StateA,
                    handle,
                },
            ),
    {
        if self.has_wallpaper_for(output) {
            return false;
        }
        let wallpaper = Wallpaper::new(
            output,
            layer,
            surface,
            self.shrink_horizontal,
            self.shrink_vertical,
            handle,
        );
        self.wallpapers.push(wallpaper);
        true
    }

    /// Lets go of the wallpaper for an output that is gone.
    pub fn output_destroyed(&mut self, output: u32)
        ensures
            old(self).wf() ==> final(self).wf(),
            *final(self) == (App { wallpapers: final(self).wallpapers, ..*old(self) }),
            final(self).wallpapers@ == old(self).wallpapers@.filter(
                |w: Wallpaper<H>| w.output != output,
            ),
    {
        let ghost all = self.wallpapers@;
        let ghost keep = |w: Wallpaper<H>| w.output != output;
        let ghost mut seen: int = 0;
        let mut i: usize = 0;
        assert(self.wallpapers@.take(0) =~= all.take(0).filter(keep)) by {
            reveal(Seq::filter);
        }
        assert(self.wallpapers@.skip(0) =~= all.skip(0));
        while i < self.wallpapers.len()
            invariant
                i <= self.wallpapers@.len(),
                0 <= seen <= all.len(),
                keep == |w: Wallpaper<H>| w.output != output,
                old(self).wf() ==> self.wf(),
                *self == (App { wallpapers: self.wallpapers, ..*old(self) }),
                self.wallpapers@.take(i as int) == all.take(seen).filter(keep),
                self.wallpapers@.skip(i as int) == all.skip(seen),
            decreases self.wallpapers@.len() - i,
        {
            let ghost before = self.wallpapers@;
            proof {
                assert(before.skip(i as int).len() == all.skip(seen).len());
                assert(before.skip(i as int)[0] == all.skip(seen)[0]);
                assert(all.take(seen + 1).drop_last() =~= all.take(seen));
                assert(all.take(seen + 1).last() == before[i as int]);
                assert(all.skip(seen + 1) =~= all.skip(seen).skip(1));
                assert(before.skip(i + 1) =~= before.skip(i as int).skip(1));
                reveal(Seq::filter);
            }
            if self.wallpapers[i].output() == output {
                let _ = self.wallpapers.remove(i);
                assert(self.wallpapers@.take(i as int) =~= before.take(i as int));
                assert(self.wallpapers@.skip(i as int) =~= before.skip(i + 1));
            } else {
                assert(before.take(i + 1) =~= before.take(i as int).push(before[i as int]));
                i = i + 1;
            }
            proof {
                seen = seen + 1;
            }
        }
        proof {
            assert(self.wallpapers@.take(i as int) =~= self.wallpapers@);
            assert(self.wallpapers@.skip(i as int).len() == 0);
            assert(all.take(seen) =~= all);
        }
    }

    /// Ends the renderer: its surface has been closed.
    pub fn closed(&mut self)
        ensures
            *final(self) == (App { exit: true, ..*old(self) }),
    {
        self.exit = true;
    }

    /// A surface is ready for its next frame.
    pub fn frame<F: Fn(Ease, Single, Single) -> Single>(
        &mut self,
        surface: u32,
        cmds: &Vec<AppCommand>,
        now: u64,
        blend: &F,
        time: Single,
    ) -> (res: Turn)
        requires
            forall|i: int| 0 <= i < cmds@.len() ==> !brings_shader(#[trigger] cmds@[i]),
            forall|e: Ease, a: Single, b: Single| #[trigger] call_requires(*blend, (e, a, b)),
        ensures
            final(self).changed_by_commands_only(
                &(App {
                    current_uniforms: final(self).current_uniforms,
                    last_uniform_update: now,
                    ..*old(self)
                }),
            ),
            final(self).controls() == run(old(self).controls(), cmds@),
            crate::params::mixed(
                *blend,
                old(self).ease(now),
                old(self).current_uniforms,
                final(self).target_uniforms,
                final(self).current_uniforms,
            ),
            texts(res.messages@) == complaints(cmds@),
            common_params(final(self).current_uniforms, time, res.params),
            first_such(
                old(self).wallpapers@,
                |w: Wallpaper<H>| w.surface == surface,
                res.wallpaper,
            ),
            res.task == crate::schedule::start_of(Event::Frame, res.wallpaper),
    {
        let messages = self.handle_pending_commands(cmds);
        self.update_uniforms(now, blend);
        let params = self.make_params(time);
        let wallpaper = self.wallpaper_index_by_surface(surface);
        Turn { messages, params, wallpaper, task: first_task(Event::Frame, wallpaper) }
    }

    /// The compositor gives a layer its size. The wallpaper that lies on it takes that size.
    pub fn configure(
        &mut self,
        layer: u32,
        new_size: (u32, u32),
        cmds: &Vec<AppCommand>,
        time: Single,
    ) -> (res: Turn)
        requires
            forall|i: int| 0 <= i < cmds@.len() ==> !brings_shader(#[trigger] cmds@[i]),
        ensures
            old(self).wf() ==> final(self).wf(),
            final(self).changed_by_commands_only(
                &(App { wallpapers: final(self).wallpapers, ..*old(self) }),
            ),
            final(self).controls() == run(old(self).controls(), cmds@),
            texts(res.messages@) == complaints(cmds@),
            common_params(final(self).current_uniforms, time, res.params),
            first_such(old(self).wallpapers@, |w: Wallpaper<H>| w.layer == layer, res.wallpaper),
            final(self).wallpapers@ == match res.wallpaper {
                Some(i) => old(self).wallpapers@.update(
                    i as int,
                    Wallpaper {
                        width: asked_size(new_size.0),
                        height: asked_size(new_size.1),
                        ..old(self).wallpapers@[i as int]
                    },
                ),
                None => old(self).wallpapers@,
            },
            res.task == crate::schedule::start_of(Event::Configure, res.wallpaper),
    {
        let messages = self.handle_pending_commands(cmds);
        let params = self.make_params(time);
        let wallpaper = self.wallpaper_index_by_layer(layer);
        if let Some(i) = wallpaper {
            self.wallpapers[i].set_size(size_or_default(new_size.0), size_or_default(new_size.1));
        }
        Turn { messages, params, wallpaper, task: first_task(Event::Configure, wallpaper) }
    }
}

/// A wallpaper that takes the size a compositor asks for is configured in that size, or in the
/// default one where the compositor leaves it open; its surface is never empty.
pub proof fn law_configured_in_asked_size<H>(w: Wallpaper<H>, new_size: (u32, u32))
    ensures
        ({
            let sized = Wallpaper {
                width: asked_size(new_size.0),
                height: asked_size(new_size.1),
                ..w
            };
            let surface = sized.surface_plan().surface;
            &&& surface.width == asked_size(new_size.0) && surface.width > 0
            &&& surface.height == asked_size(new_size.1) && surface.height > 0
        }),
{
}

/// It does not matter how commands are split into batches.
pub proof fn law_batches_compose(controls: Controls, first: Seq<AppCommand>, second: Seq<AppCommand>)
    ensures
        run(controls, first + second) == run(run(controls, first), second),
        complaints(first + second) == complaints(first) + complaints(second),
    decreases second.len(),
{
    if second.len() == 0 {
        assert(first + second =~= first);
        assert(complaints(first) + complaints(second) =~= complaints(first));
    } else {
        assert((first + second).drop_last() =~= first + second.drop_last());
        law_batches_compose(controls, first, second.drop_last());
        assert(complaints(first + second) =~= complaints(first) + complaints(second));
    }
}

/// Commands end the renderer exactly where there is a stop among them, and nothing takes that
/// back.
pub proof fn law_stop_is_final(controls: Controls, cmds: Seq<AppCommand>)
    ensures
        run(controls, cmds).exit <==> controls.exit || cmds.contains(AppCommand::Stop),
    decreases cmds.len(),
{
    if cmds.len() > 0 {
        let before = cmds.drop_last();
        law_stop_is_final(controls, before);
        if before.contains(AppCommand::Stop) {
            let i = choose|i: int| 0 <= i < before.len() && before[i] == AppCommand::Stop;
            assert(cmds[i] == AppCommand::Stop);
        }
        if cmds.contains(AppCommand::Stop) {
            let i = choose|i: int| 0 <= i < cmds.len() && cmds[i] == AppCommand::Stop;
            if i < before.len() {
                assert(before[i] == AppCommand::Stop);
            }
        }
        if cmds.last() == AppCommand::Stop {
            assert(cmds[cmds.len() - 1] == AppCommand::Stop);
        }
    }
}

/// The colour that a command sets, if it sets one.
pub open spec fn sets(cmd: AppCommand) -> Option<int> {
    match cmd {
        AppCommand::SetUniform { name, .. } => color_slot(name@),
        _ => None,
    }
}

/// After commands in a row, a colour is headed for what the last command that set it said.
pub proof fn law_last_assignment_wins(controls: Controls, cmds: Seq<AppCommand>, last: int)
    requires
        controls.target.len() == 4,
        0 <= last < cmds.len(),
        sets(cmds[last]) is Some,
        forall|i: int| last < i < cmds.len() ==> sets(#[trigger] cmds[i]) != sets(cmds[last]),
    ensures
        run(controls, cmds).target[sets(cmds[last])->0] == cmds[last]->value.rgba(),
    decreases cmds.len(),
{
    let before = cmds.drop_last();
    lemma_four_colors(controls, before);
    if last < before.len() {
        assert(before[last] == cmds[last]);
        assert forall|i: int| last < i < before.len() implies sets(#[trigger] before[i]) != sets(
            before[last],
        ) by {
            assert(before[i] == cmds[i]);
        }
        law_last_assignment_wins(controls, before, last);
        assert(sets(cmds[cmds.len() - 1]) != sets(cmds[last]));
    }
}

/// A colour that no command sets is headed for where it was headed.
pub proof fn law_other_colors_stay(controls: Controls, cmds: Seq<AppCommand>, slot: int)
    requires
        controls.target.len() == 4,
        0 <= slot < 4,
        forall|i: int| 0 <= i < cmds.len() ==> sets(#[trigger] cmds[i]) != Some(slot),
    ensures
        run(controls, cmds).target[slot] == controls.target[slot],
    decreases cmds.len(),
{
    if cmds.len() > 0 {
        let before = cmds.drop_last();
        lemma_four_colors(controls, before);
        assert forall|i: int| 0 <= i < before.len() implies sets(#[trigger] before[i]) != Some(
            slot,
        ) by {
            assert(before[i] == cmds[i]);
        }
        law_other_colors_stay(controls, before, slot);
        assert(sets(cmds[cmds.len() - 1]) != Some(slot));
    }
}

/// There are always four colours.
proof fn lemma_four_colors(controls: Controls, cmds: Seq<AppCommand>)
    requires
        controls.target.len() == 4,
    ensures
        run(controls, cmds).target.len() == 4,
    decreases cmds.len(),
{
    if cmds.len() > 0 {
        lemma_four_colors(controls, cmds.drop_last());
    }
}

/// The user is told of exactly those commands that set a uniform which is no colour.
pub proof fn law_complaints_count_unknown_names(cmds: Seq<AppCommand>)
    ensures
        complaints(cmds).len() == cmds.filter(|c: AppCommand| complaint(c) is Some).len(),
        complaints(cmds).len() == 0 <==> forall|i: int|
            0 <= i < cmds.len() ==> complaint(#[trigger] cmds[i]) is None,
    decreases cmds.len(),
{
    reveal(Seq::filter);
    if cmds.len() > 0 {
        let before = cmds.drop_last();
        law_complaints_count_unknown_names(before);
        if complaint(cmds.last()) is Some {
            assert(complaint(cmds[cmds.len() - 1]) is Some);
        } else if complaints(before).len() == 0 {
            assert forall|i: int| 0 <= i < cmds.len() implies complaint(#[trigger] cmds[i]) is None by {
                if i < before.len() {
                    assert(complaint(before[i]) is None);
                }
            }
        } else {
            let i = choose|i: int| 0 <= i < before.len() && complaint(#[trigger] before[i]) is Some;
            assert(complaint(cmds[i]) is Some);
        }
    }
}

/// Letting go of an output's wallpaper leaves every other output with its own, and that output
/// with none.
pub proof fn law_destroyed_output_is_uncovered<H>(
    wallpapers: Seq<Wallpaper<H>>,
    gone: u32,
    output: u32,
)
    ensures
        covers(wallpapers.filter(|w: Wallpaper<H>| w.output != gone), output) <==> (output != gone
            && covers(wallpapers, output)),
{
    let keep = |w: Wallpaper<H>| w.output != gone;
    let kept = wallpapers.filter(keep);
    if covers(kept, output) {
        let i = choose|i: int| 0 <= i < kept.len() && (#[trigger] kept[i]).output == output;
        wallpapers.lemma_filter_pred(keep, i);
        assert(keep(kept[i]));
        assert(kept.contains(kept[i]));
        wallpapers.lemma_filter_contains_rev(keep, kept[i]);
        let j = choose|j: int| 0 <= j < wallpapers.len() && wallpapers[j] == kept[i];
        assert(wallpapers[j].output == output);
    }
    if output != gone && covers(wallpapers, output) {
        let j = choose|j: int|
            0 <= j < wallpapers.len() && (#[trigger] wallpapers[j]).output == output;
        assert(keep(wallpapers[j]));
        wallpapers.lemma_filter_contains(keep, j);
        let i = choose|i: int| 0 <= i < kept.len() && kept[i] == wallpapers[j];
        assert(kept[i].output == output);
    }
}

/// Of wallpapers for different outputs, letting go of one removes that one alone; letting go of
/// an output without a wallpaper removes none.
pub proof fn law_destroying_removes_at_most_one<H>(wallpapers: Seq<Wallpaper<H>>, gone: u32)
    requires
        wallpapers_wf(wallpapers),
    ensures
        wallpapers.filter(|w: Wallpaper<H>| w.output != gone).len() == wallpapers.len() - if covers(
            wallpapers,
            gone,
        ) {
            1int
        } else {
            0int
        },
    decreases wallpapers.len(),
{
    reveal(Seq::filter);
    if wallpapers.len() > 0 {
        let before = wallpapers.drop_last();
        let last = wallpapers.last();
        assert forall|i: int, j: int| 0 <= i < j < before.len() implies (
        #[trigger] before[i]).output != (#[trigger] before[j]).output by {
            assert(wallpapers[i].output != wallpapers[j].output);
        }
        assert forall|i: int| 0 <= i < before.len() implies (#[trigger] before[i]).wf() by {
            assert(wallpapers[i].wf());
        }
        law_destroying_removes_at_most_one(before, gone);
        if covers(before, gone) {
            let i = choose|i: int| 0 <= i < before.len() && (#[trigger] before[i]).output == gone;
            assert(wallpapers[i].output == gone);
            assert(wallpapers[i].output != wallpapers[wallpapers.len() - 1].output);
        } else if covers(wallpapers, gone) {
            let i = choose|i: int|
                0 <= i < wallpapers.len() && (#[trigger] wallpapers[i]).output == gone;
            if i < before.len() {
                assert(before[i].output == gone);
            }
        }
        if last.output == gone {
            assert(wallpapers[wallpapers.len() - 1].output == gone);
        }
    }
}

/// The renderer starts with the colours of the configuration it is given, each in its place and
/// already at its target, and with that configuration's factors and times.
pub proof fn law_start_is_as_configured<H>(config: &Config, now: u64, res: App<H>)
    requires
        call_ensures(App::<H>::new, (config, now), res),
    ensures
        config.c1 matches ColorValue::ColorRgb(c) ==> {
            &&& res.current_uniforms.c1@[0] == c@[0]
            &&& res.current_uniforms.c1@[1] == c@[1]
            &&& res.current_uniforms.c1@[2] == c@[2]
            &&& res.current_uniforms.c1@[3].bits == 0x3f80_0000
        },
        config.c1 matches ColorValue::ColorRgba(c) ==> res.current_uniforms.c1@ == c@,
        config.c2 matches ColorValue::ColorRgb(c) ==> {
            &&& res.current_uniforms.c2@[0] == c@[0]
            &&& res.current_uniforms.c2@[1] == c@[1]
            &&& res.current_uniforms.c2@[2] == c@[2]
            &&& res.current_uniforms.c2@[3].bits == 0x3f80_0000
        },
        config.c2 matches ColorValue::ColorRgba(c) ==> res.current_uniforms.c2@ == c@,
        config.c3 matches ColorValue::ColorRgb(c) ==> {
            &&& res.current_uniforms.c3@[0] == c@[0]
            &&& res.current_uniforms.c3@[1] == c@[1]
            &&& res.current_uniforms.c3@[2] == c@[2]
            &&& res.current_uniforms.c3@[3].bits == 0x3f80_0000
        },
        config.c3 matches ColorValue::ColorRgba(c) ==> res.current_uniforms.c3@ == c@,
        config.c4 matches ColorValue::ColorRgb(c) ==> {
            &&& res.current_uniforms.c4@[0] == c@[0]
            &&& res.current_uniforms.c4@[1] == c@[1]
            &&& res.current_uniforms.c4@[2] == c@[2]
            &&& res.current_uniforms.c4@[3].bits == 0x3f80_0000
        },
        config.c4 matches ColorValue::ColorRgba(c) ==> res.current_uniforms.c4@ == c@,
        res.current_uniforms.time_scale.bits == 0x3f80_0000,
        res.current_uniforms.mouse@[0].bits == 0x3f00_0000,
        res.current_uniforms.mouse@[1].bits == 0x3f00_0000,
        res.current_uniforms.monitor == 0,
        res.target_uniforms == res.current_uniforms,
        res.shrink_horizontal == config.state_shrink_h,
        res.shrink_vertical == config.state_shrink_v,
        res.decay_time == config.decay_time,
        res.frame_time == config.frame_time,
        res.last_uniform_update == now,
        res.wallpapers@.len() == 0,
        !res.exit,
{
    let state = res.current_uniforms;
    assert(colors(state)[0] == config.c1.rgba());
    assert(colors(state)[1] == config.c2.rgba());
    assert(colors(state)[2] == config.c3.rgba());
    assert(colors(state)[3] == config.c4.rgba());
}

/// Two configurations whose colours in a place have the same channels start alike there, and two
/// whose colours differ in a channel start differently. A colour without alpha starts as the opaque
/// one with its channels does.
pub proof fn law_different_colors_start_differently<H>(
    config: &Config,
    now: u64,
    res: App<H>,
    other: &Config,
    later: u64,
    other_res: App<H>,
)
    requires
        call_ensures(App::<H>::new, (config, now), res),
        call_ensures(App::<H>::new, (other, later), other_res),
    ensures
        match (config.c1, other.c1) {
            (ColorValue::ColorRgb(a), ColorValue::ColorRgb(b)) => res.current_uniforms.c1@
                == other_res.current_uniforms.c1@ <==> a@ == b@,
            (ColorValue::ColorRgba(a), ColorValue::ColorRgba(b)) => res.current_uniforms.c1@
                == other_res.current_uniforms.c1@ <==> a@ == b@,
            (ColorValue::ColorRgb(a), ColorValue::ColorRgba(b)) => res.current_uniforms.c1@
                == other_res.current_uniforms.c1@ <==> a@ == b@.take(3) && b@[3].bits
                == 0x3f80_0000,
            (ColorValue::ColorRgba(a), ColorValue::ColorRgb(b)) => res.current_uniforms.c1@
                == other_res.current_uniforms.c1@ <==> a@.take(3) == b@ && a@[3].bits
                == 0x3f80_0000,
        },
        match (config.c2, other.c2) {
            (ColorValue::ColorRgb(a), ColorValue::ColorRgb(b)) => res.current_uniforms.c2@
                == other_res.current_uniforms.c2@ <==> a@ == b@,
            (ColorValue::ColorRgba(a), ColorValue::ColorRgba(b)) => res.current_uniforms.c2@
                == other_res.current_uniforms.c2@ <==> a@ == b@,
            (ColorValue::ColorRgb(a), ColorValue::ColorRgba(b)) => res.current_uniforms.c2@
                == other_res.current_uniforms.c2@ <==> a@ == b@.take(3) && b@[3].bits
                == 0x3f80_0000,
            (ColorValue::ColorRgba(a), ColorValue::ColorRgb(b)) => res.current_uniforms.c2@
                == other_res.current_uniforms.c2@ <==> a@.take(3) == b@ && a@[3].bits
                == 0x3f80_0000,
        },
        match (config.c3, other.c3) {
            (ColorValue::ColorRgb(a), ColorValue::ColorRgb(b)) => res.current_uniforms.c3@
                == other_res.current_uniforms.c3@ <==> a@ == b@,
            (ColorValue::ColorRgba(a), ColorValue::ColorRgba(b)) => res.current_uniforms.c3@
                == other_res.current_uniforms.c3@ <==> a@ == b@,
            (ColorValue::ColorRgb(a), ColorValue::ColorRgba(b)) => res.current_uniforms.c3@
                == other_res.current_uniforms.c3@ <==> a@ == b@.take(3) && b@[3].bits
                == 0x3f80_0000,
            (ColorValue::ColorRgba(a), ColorValue::ColorRgb(b)) => res.current_uniforms.c3@
                == other_res.current_uniforms.c3@ <==> a@.take(3) == b@ && a@[3].bits
                == 0x3f80_0000,
        },
        match (config.c4, other.c4) {
            (ColorValue::ColorRgb(a), ColorValue::ColorRgb(b)) => res.current_uniforms.c4@
                == other_res.current_uniforms.c4@ <==> a@ == b@,
            (ColorValue::ColorRgba(a), ColorValue::ColorRgba(b)) => res.current_uniforms.c4@
                == other_res.current_uniforms.c4@ <==> a@ == b@,
            (ColorValue::ColorRgb(a), ColorValue::ColorRgba(b)) => res.current_uniforms.c4@
                == other_res.current_uniforms.c4@ <==> a@ == b@.take(3) && b@[3].bits
                == 0x3f80_0000,
            (ColorValue::ColorRgba(a), ColorValue::ColorRgb(b)) => res.current_uniforms.c4@
                == other_res.current_uniforms.c4@ <==> a@.take(3) == b@ && a@[3].bits
                == 0x3f80_0000,
        },
{
    let (a, b) = (colors(res.current_uniforms), colors(other_res.current_uniforms));
    assert(a[0] == config.c1.rgba() && b[0] == other.c1.rgba());
    assert(a[1] == config.c2.rgba() && b[1] == other.c2.rgba());
    assert(a[2] == config.c3.rgba() && b[2] == other.c3.rgba());
    assert(a[3] == config.c4.rgba() && b[3] == other.c4.rgba());
    lemma_equal_channels(config.c1, other.c1);
    lemma_equal_channels(config.c2, other.c2);
    lemma_equal_channels(config.c3, other.c3);
    lemma_equal_channels(config.c4, other.c4);
}

/// Two colours have the same four channels where they have the same channels, and full alpha
/// where only one of them has alpha.
proof fn lemma_equal_channels(x: ColorValue, y: ColorValue)
    ensures
        match (x, y) {
            (ColorValue::ColorRgb(a), ColorValue::ColorRgb(b)) => x.rgba() == y.rgba() <==> a@
                == b@,
            (ColorValue::ColorRgba(a), ColorValue::ColorRgba(b)) => x.rgba() == y.rgba() <==> a@
                == b@,
            (ColorValue::ColorRgb(a), ColorValue::ColorRgba(b)) => x.rgba() == y.rgba() <==> a@
                == b@.take(3) && b@[3].bits == 0x3f80_0000,
            (ColorValue::ColorRgba(a), ColorValue::ColorRgb(b)) => x.rgba() == y.rgba()
                <==> a@.take(3) == b@ && a@[3].bits == 0x3f80_0000,
        },
{
    match (x, y) {
        (ColorValue::ColorRgb(a), ColorValue::ColorRgb(b)) => {
            if x.rgba() == y.rgba() {
                assert(x.rgba().drop_last() =~= a@ && y.rgba().drop_last() =~= b@);
            }
        },
        (ColorValue::ColorRgb(a), ColorValue::ColorRgba(b)) => {
            if x.rgba() == y.rgba() {
                assert(x.rgba().take(3) =~= a@);
            } else if a@ == b@.take(3) && b@[3].bits == 0x3f80_0000 {
                assert(x.rgba() =~= y.rgba());
            }
        },
        (ColorValue::ColorRgba(a), ColorValue::ColorRgb(b)) => {
            if x.rgba() == y.rgba() {
                assert(y.rgba().take(3) =~= b@);
            } else if a@.take(3) == b@ && a@[3].bits == 0x3f80_0000 {
                assert(x.rgba() =~= y.rgba());
            }
        },
        _ => {},
    }
}

/// Whether a number, by its bits, is a number and is negative or zero.
pub open spec fn no_decay(decay_time: Single) -> bool {
    decay_time.bits % 0x8000_0000 <= 0x7f80_0000 && (decay_time.bits >= 0x8000_0000
        || decay_time.bits == 0)
}

/// An update moves the colours and the time scale towards their targets by all of the time since
/// the last update, to the nanosecond, or all the way where there is no decay; a clock that runs
/// backwards moves them by no time. It is then the last update. Nothing else changes.
pub proof fn law_update_counts_all_time_since_the_last<
    H,
    F: Fn(Ease, Single, Single) -> Single,
>(app: &mut App<H>, now: u64, blend: &F)
    requires
        call_ensures(App::<H>::update_uniforms::<F>, (app, now, blend), ()),
    ensures
        ({
            let from = old(app).current_uniforms;
            let to = old(app).target_uniforms;
            let res = final(app).current_uniforms;
            let last = old(app).last_uniform_update;
            &&& no_decay(old(app).decay_time) ==> crate::params::namesakes_blended(
                *blend,
                Ease::Jump,
                from,
                to,
                res,
            )
            &&& !no_decay(old(app).decay_time) && now >= last ==> crate::params::namesakes_blended(
                *blend,
                Ease::Decay { elapsed: (now - last) as u64 },
                from,
                to,
                res,
            )
            &&& !no_decay(old(app).decay_time) && now < last ==> crate::params::namesakes_blended(
                *blend,
                Ease::Decay { elapsed: 0 },
                from,
                to,
                res,
            )
            &&& res.mouse == from.mouse
            &&& res.monitor == from.monitor
        }),
        final(app).last_uniform_update == now,
        final(app).target_uniforms == old(app).target_uniforms,
        final(app).shrink_horizontal == old(app).shrink_horizontal,
        final(app).shrink_vertical == old(app).shrink_vertical,
        final(app).decay_time == old(app).decay_time,
        final(app).frame_time == old(app).frame_time,
        final(app).wallpapers == old(app).wallpapers,
        final(app).exit == old(app).exit,
{
}

/// With a positive decay time and a clock that has not run backwards, every channel of every
/// colour, and the time scale, is blended by a decay of exactly the nanoseconds that have passed
/// since the last update.
pub proof fn law_decay_is_by_exactly_the_time_passed<H, F: Fn(Ease, Single, Single) -> Single>(
    app: &mut App<H>,
    now: u64,
    blend: &F,
    elapsed: u64,
    k: int,
)
    requires
        0 < app.decay_time.bits <= 0x7f80_0000,
        app.last_uniform_update + elapsed == now,
        call_ensures(App::<H>::update_uniforms::<F>, (app, now, blend), ()),
        0 <= k < 4,
    ensures
        call_ensures(
            *blend,
            (
                Ease::Decay { elapsed },
                old(app).current_uniforms.time_scale,
                old(app).target_uniforms.time_scale,
            ),
            final(app).current_uniforms.time_scale,
        ),
        call_ensures(
            *blend,
            (
                Ease::Decay { elapsed },
                old(app).current_uniforms.c1@[k],
                old(app).target_uniforms.c1@[k],
            ),
            final(app).current_uniforms.c1@[k],
        ),
        call_ensures(
            *blend,
            (
                Ease::Decay { elapsed },
                old(app).current_uniforms.c2@[k],
                old(app).target_uniforms.c2@[k],
            ),
            final(app).current_uniforms.c2@[k],
        ),
        call_ensures(
            *blend,
            (
                Ease::Decay { elapsed },
                old(app).current_uniforms.c3@[k],
                old(app).target_uniforms.c3@[k],
            ),
            final(app).current_uniforms.c3@[k],
        ),
        call_ensures(
            *blend,
            (
                Ease::Decay { elapsed },
                old(app).current_uniforms.c4@[k],
                old(app).target_uniforms.c4@[k],
            ),
            final(app).current_uniforms.c4@[k],
        ),
{
    law_update_counts_all_time_since_the_last(app, now, blend);
    assert(elapsed == (now - app.last_uniform_update) as u64);
    let reached = final(app).current_uniforms;
    assert(reached.c1@[k] == reached.c1@[k]);
}

/// The times that two updates in a row are moved by add up to the time between the first and the
/// last of them: no time is counted twice, and none is lost.
pub proof fn law_elapsed_times_add_up<H, F: Fn(Ease, Single, Single) -> Single>(
    app: &mut App<H>,
    now: u64,
    next: &mut App<H>,
    later: u64,
    blend: &F,
)
    requires
        !no_decay(app.decay_time),
        app.last_uniform_update <= now <= later,
        call_ensures(App::<H>::update_uniforms::<F>, (app, now, blend), ()),
        *next == *final(app),
        call_ensures(App::<H>::update_uniforms::<F>, (next, later, blend), ()),
    ensures
        exists|first: u64, second: u64|
            {
                &&& first + second == later - old(app).last_uniform_update
                &&& #[trigger] crate::params::namesakes_blended(
                    *blend,
                    Ease::Decay { elapsed: first },
                    old(app).current_uniforms,
                    old(app).target_uniforms,
                    final(app).current_uniforms,
                )
                &&& #[trigger] crate::params::namesakes_blended(
                    *blend,
                    Ease::Decay { elapsed: second },
                    final(app).current_uniforms,
                    old(app).target_uniforms,
                    final(next).current_uniforms,
                )
            },
{
    let first = (now - app.last_uniform_update) as u64;
    let second = (later - now) as u64;
    assert(crate::params::namesakes_blended(
        *blend,
        Ease::Decay { elapsed: first },
        app.current_uniforms,
        app.target_uniforms,
        final(app).current_uniforms,
    ));
    assert(crate::params::namesakes_blended(
        *blend,
        Ease::Decay { elapsed: second },
        final(app).current_uniforms,
        app.target_uniforms,
        final(next).current_uniforms,
    ));
}

/// The later an update is, the more time it counts.
pub proof fn law_later_updates_count_more<H>(app: App<H>, now: u64, later: u64)
    requires
        !no_decay(app.decay_time),
        app.last_uniform_update <= now < later,
    ensures
        app.ease(now) is Decay,
        app.ease(later) is Decay,
        app.ease(later)->elapsed - app.ease(now)->elapsed == later - now,
{
}

/// The block of a frame holds the time, the current time scale and each current colour, in the
/// words where the shaders look for that one.
pub proof fn law_block_holds_current_uniforms<H>(
    app: &App<H>,
    time: Single,
    params: Params,
    words: [u32; 23],
)
    requires
        call_ensures(App::<H>::make_params, (app, time), params),
        call_ensures(Params::words, (&params,), words),
    ensures
        words@[0] == 0x3f80_0000,
        words@[1] == 0x3f80_0000,
        words@[2] == time.bits,
        words@[3] == app.current_uniforms.time_scale.bits,
        forall|k: int| 4 <= k < 8 ==> #[trigger] words@[k] == app.current_uniforms.c1@[k - 4].bits,
        forall|k: int| 8 <= k < 12 ==> #[trigger] words@[k] == app.current_uniforms.c2@[k - 8].bits,
        forall|k: int|
            12 <= k < 16 ==> #[trigger] words@[k] == app.current_uniforms.c3@[k - 12].bits,
        forall|k: int|
            16 <= k < 20 ==> #[trigger] words@[k] == app.current_uniforms.c4@[k - 16].bits,
        words@[20] == app.current_uniforms.mouse@[0].bits,
        words@[21] == app.current_uniforms.mouse@[1].bits,
        words@[22] == 0,
        params.c1 == app.current_uniforms.c1,
        params.c2 == app.current_uniforms.c2,
        params.c3 == app.current_uniforms.c3,
        params.c4 == app.current_uniforms.c4,
{
    crate::params::law_words_hold_every_number(&params, words);
}

/// The colour that a user calls by a name, if there is one: a `c` and a digit from one to four.
pub open spec fn color_named(state: UniformState, name: Seq<char>) -> Option<Seq<Single>> {
    if name == seq!['c', '1'] {
        Some(state.c1@)
    } else if name == seq!['c', '2'] {
        Some(state.c2@)
    } else if name == seq!['c', '3'] {
        Some(state.c3@)
    } else if name == seq!['c', '4'] {
        Some(state.c4@)
    } else {
        None
    }
}

/// The colour in a uniform block that the shaders call by a name, if there is one.
pub open spec fn block_color(params: Params, name: Seq<char>) -> Option<Seq<Single>> {
    if name == seq!['c', '1'] {
        Some(params.c1@)
    } else if name == seq!['c', '2'] {
        Some(params.c2@)
    } else if name == seq!['c', '3'] {
        Some(params.c3@)
    } else if name == seq!['c', '4'] {
        Some(params.c4@)
    } else {
        None
    }
}

/// A colour's place is that of its name.
proof fn lemma_names_have_places(state: UniformState, name: Seq<char>)
    ensures
        match color_slot(name) {
            Some(slot) => 0 <= slot < 4 && color_named(state, name) == Some(colors(state)[slot]),
            None => color_named(state, name) is None,
        },
        color_slot(name) == match color_named(state, name) {
            None => None::<int>,
            Some(_) => Some(
                if name[1] == '1' {
                    0int
                } else if name[1] == '2' {
                    1
                } else if name[1] == '3' {
                    2
                } else {
                    3
                },
            ),
        },
{
    reveal_strlit("c1");
    reveal_strlit("c2");
    reveal_strlit("c3");
    reveal_strlit("c4");
    assert("c1"@ =~= seq!['c', '1']);
    assert("c2"@ =~= seq!['c', '2']);
    assert("c3"@ =~= seq!['c', '3']);
    assert("c4"@ =~= seq!['c', '4']);
    assert(seq!['c', '2'][1] == '2');
    assert(seq!['c', '3'][1] == '3');
    assert(seq!['c', '4'][1] == '4');
    assert(seq!['c', '1'][1] == '1');
}

/// Two names of one colour are the same name.
proof fn lemma_places_have_one_name(a: Seq<char>, b: Seq<char>)
    requires
        color_slot(a) is Some,
        color_slot(a) == color_slot(b),
    ensures
        a == b,
{
}

/// Setting a colour by its name makes that colour, and no other, head for the value; a name that
/// is no colour's changes nothing and is told back.
pub proof fn law_color_is_set_by_its_name<H>(
    app: &mut App<H>,
    name: &str,
    value: ColorValue,
    res: Result<(), String>,
    other: Seq<char>,
)
    requires
        call_ensures(App::<H>::apply_color_update, (app, name, value), res),
        other != name@,
    ensures
        res is Ok <==> color_named(old(app).target_uniforms, name@) is Some,
        res is Ok ==> crate::uniform::shows(
            value,
            color_named(final(app).target_uniforms, name@)->0,
        ),
        color_named(final(app).target_uniforms, other) == color_named(
            old(app).target_uniforms,
            other,
        ),
        res matches Err(message) ==> message@ == "unsupported assignment: "@ + name@,
        res is Err ==> *final(app) == *old(app),
        final(app).current_uniforms == old(app).current_uniforms,
        final(app).target_uniforms.time_scale == old(app).target_uniforms.time_scale,
        final(app).target_uniforms.mouse == old(app).target_uniforms.mouse,
        final(app).target_uniforms.monitor == old(app).target_uniforms.monitor,
        final(app).exit == old(app).exit,
        final(app).wallpapers == old(app).wallpapers,
        final(app).last_uniform_update == old(app).last_uniform_update,
        final(app).shrink_horizontal == old(app).shrink_horizontal,
        final(app).shrink_vertical == old(app).shrink_vertical,
        final(app).decay_time == old(app).decay_time,
        final(app).frame_time == old(app).frame_time,
{
    lemma_names_have_places(app.target_uniforms, name@);
    lemma_names_have_places(final(app).target_uniforms, name@);
    lemma_names_have_places(app.target_uniforms, other);
    lemma_names_have_places(final(app).target_uniforms, other);
    if color_slot(other) is Some && color_slot(other) == color_slot(name@) {
        lemma_places_have_one_name(other, name@);
    }
}

/// Whether a command sets the colour of the given name.
pub open spec fn sets_name(cmd: AppCommand, name: Seq<char>) -> bool {
    cmd matches AppCommand::SetUniform { name: n, .. } && n@ == name
}

/// What the last of several commands that set a colour says is what holds of it; a colour that
/// none of them sets stays.
proof fn lemma_run_by_name(before: UniformState, after: UniformState, controls: Controls, cmds: Seq<AppCommand>, name: Seq<char>)
    requires
        controls.target == colors(before),
        run(controls, cmds).target == colors(after),
    ensures
        forall|last: int|
            0 <= last < cmds.len() && #[trigger] sets_name(cmds[last], name) && (forall|i: int|
                last < i < cmds.len() ==> !#[trigger] sets_name(cmds[i], name)) && color_named(
                before,
                name,
            ) is Some ==> color_named(after, name) == Some(cmds[last]->value.rgba()),
        (forall|i: int| 0 <= i < cmds.len() ==> !#[trigger] sets_name(cmds[i], name))
            ==> color_named(after, name) == color_named(before, name),
{
    lemma_names_have_places(before, name);
    lemma_names_have_places(after, name);
    assert forall|last: int|
        0 <= last < cmds.len() && #[trigger] sets_name(cmds[last], name) && (forall|i: int|
            last < i < cmds.len() ==> !#[trigger] sets_name(cmds[i], name)) && color_named(
            before,
            name,
        ) is Some implies color_named(after, name) == Some(cmds[last]->value.rgba()) by {
        assert forall|i: int| last < i < cmds.len() implies sets(#[trigger] cmds[i]) != sets(
            cmds[last],
        ) by {
            assert(!sets_name(cmds[i], name));
            if sets(cmds[i]) == sets(cmds[last]) {
                lemma_places_have_one_name(cmds[i]->name@, name);
            }
        }
        law_last_assignment_wins(controls, cmds, last);
    }
    if (forall|i: int| 0 <= i < cmds.len() ==> !#[trigger] sets_name(cmds[i], name)) && color_slot(
        name,
    ) is Some {
        let slot = color_slot(name)->0;
        assert forall|i: int| 0 <= i < cmds.len() implies sets(#[trigger] cmds[i]) != Some(slot) by {
            assert(!sets_name(cmds[i], name));
            if sets(cmds[i]) == Some(slot) {
                lemma_places_have_one_name(cmds[i]->name@, name);
            }
        }
        law_other_colors_stay(controls, cmds, slot);
    }
}

/// Whether a command sets something by a name that is no colour's.
pub open spec fn sets_unknown(cmd: AppCommand) -> bool {
    cmd matches AppCommand::SetUniform { name, .. } && !(name@.len() == 2 && name@[0] == 'c' && (
    name@[1] == '1' || name@[1] == '2' || name@[1] == '3' || name@[1] == '4'))
}

/// The user is told of the commands that set an unknown name, in their order, and of no others.
proof fn lemma_complaints_by_name(cmds: Seq<AppCommand>)
    ensures
        ({
            let unknown = cmds.filter(|c: AppCommand| sets_unknown(c));
            &&& complaints(cmds).len() == unknown.len()
            &&& forall|i: int|
                0 <= i < unknown.len() ==> #[trigger] complaints(cmds)[i]
                    == "uniform update failed: "@ + ("unsupported assignment: "@
                    + unknown[i]->name@) && unknown[i] is SetUniform
        }),
    decreases cmds.len(),
{
    reveal(Seq::filter);
    if cmds.len() > 0 {
        lemma_complaints_by_name(cmds.drop_last());
        let last = cmds.last();
        if last is SetUniform {
            let name = last->name@;
            reveal_strlit("c1");
            reveal_strlit("c2");
            reveal_strlit("c3");
            reveal_strlit("c4");
            if name.len() == 2 {
                assert(name == "c1"@ || name[0] != 'c' || name[1] != '1') by {
                    if name[0] == 'c' && name[1] == '1' {
                        assert(name =~= "c1"@);
                    }
                }
                assert(name == "c2"@ || name[0] != 'c' || name[1] != '2') by {
                    if name[0] == 'c' && name[1] == '2' {
                        assert(name =~= "c2"@);
                    }
                }
                assert(name == "c3"@ || name[0] != 'c' || name[1] != '3') by {
                    if name[0] == 'c' && name[1] == '3' {
                        assert(name =~= "c3"@);
                    }
                }
                assert(name == "c4"@ || name[0] != 'c' || name[1] != '4') by {
                    if name[0] == 'c' && name[1] == '4' {
                        assert(name =~= "c4"@);
                    }
                }
            }
        }
    }
}

/// Whether commands have done their work: a colour heads for what the last command that set it
/// said, one that none has set for where it was headed; the renderer is to end where it was, or
/// where there is a stop among them; the user is told of every name that is no colour's, in the
/// order of the commands, and of nothing else.
pub open spec fn commands_followed(
    before: UniformState,
    exit_before: bool,
    cmds: Seq<AppCommand>,
    after: UniformState,
    exit_after: bool,
    messages: Seq<String>,
) -> bool {
    let unknown = cmds.filter(|c: AppCommand| sets_unknown(c));
    &&& forall|last: int|
        0 <= last < cmds.len() && cmds[last] is SetUniform && color_named(
            before,
            (#[trigger] cmds[last])->name@,
        ) is Some && (forall|i: int|
            last < i < cmds.len() ==> !#[trigger] sets_name(cmds[i], cmds[last]->name@))
            ==> crate::uniform::shows(
            cmds[last]->value,
            color_named(after, cmds[last]->name@)->0,
        )
    &&& forall|name: Seq<char>|
        (forall|i: int| 0 <= i < cmds.len() ==> !#[trigger] sets_name(cmds[i], name))
            ==> #[trigger] color_named(after, name) == color_named(before, name)
    &&& after.time_scale == before.time_scale
    &&& after.mouse == before.mouse
    &&& after.monitor == before.monitor
    &&& exit_after <==> exit_before || exists|i: int|
        0 <= i < cmds.len() && #[trigger] cmds[i] is Stop
    &&& messages.len() == unknown.len()
    &&& forall|i: int|
        0 <= i < messages.len() ==> (#[trigger] messages[i])@ == "uniform update failed: "@ + (
        "unsupported assignment: "@ + unknown[i]->name@)
}

/// What running commands over the controls makes of them is what the commands are for.
proof fn lemma_run_follows_commands(
    before: UniformState,
    exit_before: bool,
    cmds: Seq<AppCommand>,
    after: UniformState,
    exit_after: bool,
    messages: Seq<String>,
)
    requires
        run(Controls { target: colors(before), exit: exit_before }, cmds) == (Controls {
            target: colors(after),
            exit: exit_after,
        }),
        texts(messages) == complaints(cmds),
        after.time_scale == before.time_scale,
        after.mouse == before.mouse,
        after.monitor == before.monitor,
    ensures
        commands_followed(before, exit_before, cmds, after, exit_after, messages),
{
    let controls = Controls { target: colors(before), exit: exit_before };
    assert forall|last: int|
        0 <= last < cmds.len() && cmds[last] is SetUniform && color_named(
            before,
            (#[trigger] cmds[last])->name@,
        ) is Some && (forall|i: int|
            last < i < cmds.len() ==> !#[trigger] sets_name(cmds[i], cmds[last]->name@)) implies crate::uniform::shows(
        cmds[last]->value,
        color_named(after, cmds[last]->name@)->0,
    ) by {
        lemma_run_by_name(before, after, controls, cmds, cmds[last]->name@);
        assert(sets_name(cmds[last], cmds[last]->name@));
    }
    assert forall|name: Seq<char>|
        (forall|i: int| 0 <= i < cmds.len() ==> !#[trigger] sets_name(cmds[i], name)) implies
        #[trigger] color_named(after, name) == color_named(before, name) by {
        lemma_run_by_name(before, after, controls, cmds, name);
    }
    law_stop_is_final(controls, cmds);
    if cmds.contains(AppCommand::Stop) {
        let i = choose|i: int| 0 <= i < cmds.len() && cmds[i] == AppCommand::Stop;
        assert(cmds[i] is Stop);
    }
    assert forall|i: int| 0 <= i < cmds.len() && #[trigger] cmds[i] is Stop implies cmds.contains(
        AppCommand::Stop,
    ) by {
        assert(cmds[i] == AppCommand::Stop);
    }
    lemma_complaints_by_name(cmds);
    assert forall|i: int| 0 <= i < messages.len() implies (#[trigger] messages[i])@ == complaints(
        cmds,
    )[i] by {
        assert(texts(messages)[i] == messages[i]@);
    }
    assert(texts(messages).len() == messages.len());
}

/// Following the commands that have come in does their work, and touches nothing else.
pub proof fn law_pending_commands_are_followed<H>(
    app: &mut App<H>,
    cmds: &Vec<AppCommand>,
    res: Vec<String>,
)
    requires
        call_ensures(App::<H>::handle_pending_commands, (app, cmds), res),
    ensures
        commands_followed(
            old(app).target_uniforms,
            old(app).exit,
            cmds@,
            final(app).target_uniforms,
            final(app).exit,
            res@,
        ),
        final(app).current_uniforms == old(app).current_uniforms,
        final(app).last_uniform_update == old(app).last_uniform_update,
        final(app).wallpapers == old(app).wallpapers,
        final(app).shrink_horizontal == old(app).shrink_horizontal,
        final(app).shrink_vertical == old(app).shrink_vertical,
        final(app).decay_time == old(app).decay_time,
        final(app).frame_time == old(app).frame_time,
{
    lemma_run_follows_commands(
        app.target_uniforms,
        app.exit,
        cmds@,
        final(app).target_uniforms,
        final(app).exit,
        res@,
    );
}

/// Following one command is following a row of one.
pub proof fn law_command_is_followed<H>(app: &mut App<H>, cmd: &AppCommand, res: Option<String>)
    requires
        call_ensures(App::<H>::handle_command, (app, cmd), res),
    ensures
        commands_followed(
            old(app).target_uniforms,
            old(app).exit,
            seq![*cmd],
            final(app).target_uniforms,
            final(app).exit,
            match res {
                Some(text) => seq![text],
                None => Seq::empty(),
            },
        ),
        final(app).current_uniforms == old(app).current_uniforms,
        final(app).last_uniform_update == old(app).last_uniform_update,
        final(app).wallpapers == old(app).wallpapers,
        final(app).shrink_horizontal == old(app).shrink_horizontal,
        final(app).shrink_vertical == old(app).shrink_vertical,
        final(app).decay_time == old(app).decay_time,
        final(app).frame_time == old(app).frame_time,
{
    let cmds = seq![*cmd];
    let messages = match res {
        Some(text) => seq![text],
        None => Seq::empty(),
    };
    reveal_with_fuel(run, 2);
    reveal_with_fuel(complaints, 2);
    assert(cmds.drop_last() =~= Seq::empty());
    assert(texts(messages) =~= complaints(cmds));
    lemma_run_follows_commands(
        app.target_uniforms,
        app.exit,
        cmds,
        final(app).target_uniforms,
        final(app).exit,
        messages,
    );
}

/// The commands that bring a shader are those for the display, the state and the first state.
pub proof fn law_shaders_are_brought_by_three_commands(cmd: &AppCommand, res: bool)
    requires
        call_ensures(command_brings_shader, (cmd,), res),
    ensures
        !res <==> *cmd is SetUniform || *cmd is Stop,
{
}

/// Whether a block holds the given uniforms, each by its name, the time, a resolution that is yet
/// to be put in, and a mouse that nothing follows.
pub open spec fn block_holds(params: Params, state: UniformState, time: Single) -> bool {
    &&& params.time == time
    &&& params.time_scale == state.time_scale
    &&& params.c1@ == state.c1@
    &&& params.c2@ == state.c2@
    &&& params.c3@ == state.c3@
    &&& params.c4@ == state.c4@
    &&& params.mouse@ == state.mouse@
    &&& params.mouse_active.bits == 0
    &&& params.resolution@[0].bits == 0x3f80_0000
    &&& params.resolution@[1].bits == 0x3f80_0000
}

/// A frame first follows the commands that have come in, then moves the uniforms towards where
/// those have headed them, by all of the time since the last update, and hands the shaders what
/// came of it. It is about the first wallpaper on the surface, which is drawn first of all; where
/// there is none, nothing is to be done.
pub proof fn law_frame_follows_eases_and_shows<H, F: Fn(Ease, Single, Single) -> Single>(
    app: &mut App<H>,
    surface: u32,
    cmds: &Vec<AppCommand>,
    now: u64,
    blend: &F,
    time: Single,
    res: Turn,
)
    requires
        call_ensures(App::<H>::frame::<F>, (app, surface, cmds, now, blend, time), res),
    ensures
        commands_followed(
            old(app).target_uniforms,
            old(app).exit,
            cmds@,
            final(app).target_uniforms,
            final(app).exit,
            res.messages@,
        ),
        !no_decay(old(app).decay_time) && now >= old(app).last_uniform_update
            ==> crate::params::namesakes_blended(
            *blend,
            Ease::Decay { elapsed: (now - old(app).last_uniform_update) as u64 },
            old(app).current_uniforms,
            final(app).target_uniforms,
            final(app).current_uniforms,
        ),
        !no_decay(old(app).decay_time) && now < old(app).last_uniform_update
            ==> crate::params::namesakes_blended(
            *blend,
            Ease::Decay { elapsed: 0 },
            old(app).current_uniforms,
            final(app).target_uniforms,
            final(app).current_uniforms,
        ),
        no_decay(old(app).decay_time) ==> crate::params::namesakes_blended(
            *blend,
            Ease::Jump,
            old(app).current_uniforms,
            final(app).target_uniforms,
            final(app).current_uniforms,
        ),
        final(app).current_uniforms.mouse == old(app).current_uniforms.mouse,
        final(app).current_uniforms.monitor == old(app).current_uniforms.monitor,
        final(app).last_uniform_update == now,
        block_holds(res.params, final(app).current_uniforms, time),
        res.wallpaper matches Some(i) ==> i < old(app).wallpapers@.len()
            && old(app).wallpapers@[i as int].surface == surface,
        forall|j: int|
            0 <= j < old(app).wallpapers@.len() && (#[trigger] old(app).wallpapers@[j]).surface
                == surface ==> res.wallpaper is Some && res.wallpaper->0 <= j,
        res.wallpaper is Some ==> res.task == Task::FrameDraw,
        res.wallpaper is None ==> res.task == Task::Finished,
        final(app).wallpapers == old(app).wallpapers,
        final(app).shrink_horizontal == old(app).shrink_horizontal,
        final(app).shrink_vertical == old(app).shrink_vertical,
        final(app).decay_time == old(app).decay_time,
        final(app).frame_time == old(app).frame_time,
{
    lemma_run_follows_commands(
        app.target_uniforms,
        app.exit,
        cmds@,
        final(app).target_uniforms,
        final(app).exit,
        res.messages@,
    );
}

/// After a frame whose blend goes all the way, a colour that was set by name is found in the
/// block under that name: what a user sets is what the shaders see.
pub proof fn law_set_color_is_seen_by_shaders<H, F: Fn(Ease, Single, Single) -> Single>(
    app: &mut App<H>,
    surface: u32,
    cmds: &Vec<AppCommand>,
    now: u64,
    blend: &F,
    time: Single,
    res: Turn,
    last: int,
)
    requires
        call_ensures(App::<H>::frame::<F>, (app, surface, cmds, now, blend, time), res),
        forall|e: Ease, a: Single, b: Single, r: Single| #[trigger]
            call_ensures(*blend, (e, a, b), r) ==> r == b,
        0 <= last < cmds@.len(),
        cmds@[last] is SetUniform,
        block_color(res.params, cmds@[last]->name@) is Some,
        forall|i: int|
            last < i < cmds@.len() ==> !#[trigger] sets_name(cmds@[i], cmds@[last]->name@),
    ensures
        crate::uniform::shows(
            cmds@[last]->value,
            block_color(res.params, cmds@[last]->name@)->0,
        ),
{
    law_frame_follows_eases_and_shows(app, surface, cmds, now, blend, time, res);
    let name = cmds@[last]->name@;
    let (reached, target) = (final(app).current_uniforms, final(app).target_uniforms);
    assert(color_named(app.target_uniforms, name) is Some);
    assert(crate::uniform::shows(cmds@[last]->value, color_named(target, name)->0));
    assert forall|k: int| 0 <= k < 4 implies reached.c1@[k] == target.c1@[k] && reached.c2@[k]
        == target.c2@[k] && reached.c3@[k] == target.c3@[k] && reached.c4@[k] == target.c4@[k] by {
        assert(reached.c1@[k] == reached.c1@[k]);
    }
    assert(reached.c1@ =~= target.c1@);
    assert(reached.c2@ =~= target.c2@);
    assert(reached.c3@ =~= target.c3@);
    assert(reached.c4@ =~= target.c4@);
}

/// The first wallpaper on a layer takes the size that the compositor asks for in each direction,
/// to the pixel, and 256 only in a direction that is left open; its surface is then configured in
/// exactly that size, and its state in that size shrunk. No other wallpaper is touched.
pub proof fn law_asked_size_is_taken<H>(
    app: &mut App<H>,
    layer: u32,
    new_size: (u32, u32),
    cmds: &Vec<AppCommand>,
    time: Single,
    res: Turn,
    w: &mut Wallpaper<H>,
    plan: crate::wallpaper::SurfacePlan,
)
    requires
        call_ensures(App::<H>::configure, (app, layer, new_size, cmds, time), res),
        res.wallpaper is Some,
        *w == final(app).wallpapers@[res.wallpaper->0 as int],
        w.shrink_horizontal > 0,
        w.shrink_vertical > 0,
        call_ensures(Wallpaper::<H>::reconfigure, (w,), plan),
    ensures
        ({
            let i = res.wallpaper->0 as int;
            let (before, after) = (old(app).wallpapers@, final(app).wallpapers@);
            &&& i < before.len()
            &&& before[i].layer == layer
            &&& after.len() == before.len()
            &&& forall|j: int| 0 <= j < after.len() && j != i ==> #[trigger] after[j] == before[j]
            &&& new_size.0 != 0 ==> after[i].width == new_size.0
            &&& new_size.0 == 0 ==> after[i].width == 256
            &&& new_size.1 != 0 ==> after[i].height == new_size.1
            &&& new_size.1 == 0 ==> after[i].height == 256
            &&& after[i].output == before[i].output
            &&& after[i].layer == before[i].layer
            &&& after[i].surface == before[i].surface
            &&& after[i].shrink_horizontal == before[i].shrink_horizontal
            &&& after[i].shrink_vertical == before[i].shrink_vertical
            &&& after[i].read_state == before[i].read_state
            &&& after[i].handle == before[i].handle
        }),
        new_size.0 != 0 ==> plan.surface.width == new_size.0,
        new_size.0 == 0 ==> plan.surface.width == 256,
        new_size.1 != 0 ==> plan.surface.height == new_size.1,
        new_size.1 == 0 ==> plan.surface.height == 256,
        crate::wallpaper::fits_times(
            plan.surface.width,
            old(w).shrink_horizontal,
            plan.state.width,
        ),
        crate::wallpaper::fits_times(
            plan.surface.height,
            old(w).shrink_vertical,
            plan.state.height,
        ),
{
    let i = res.wallpaper->0 as int;
    crate::wallpaper::lemma_quotient_fits(w.width, w.shrink_horizontal);
    crate::wallpaper::lemma_quotient_fits(w.height, w.shrink_vertical);
    assert(final(app).wallpapers@.len() == app.wallpapers@.len());
}

/// The size of one direction is the one asked for, but for a direction that is left open.
pub proof fn law_sizes_are_taken_as_asked(asked: u32)
    ensures
        asked != 0 ==> asked_size(asked) == asked,
        asked == 0 ==> asked_size(asked) == 256,
{
}

/// Giving a layer its size follows the commands that have come in, moves no uniform, and hands
/// the shaders the current ones. It is about the first wallpaper on the layer, which is configured
/// first of all; where there is none, no wallpaper changes and nothing is to be done.
pub proof fn law_configure_follows_and_shows<H>(
    app: &mut App<H>,
    layer: u32,
    new_size: (u32, u32),
    cmds: &Vec<AppCommand>,
    time: Single,
    res: Turn,
)
    requires
        call_ensures(App::<H>::configure, (app, layer, new_size, cmds, time), res),
    ensures
        commands_followed(
            old(app).target_uniforms,
            old(app).exit,
            cmds@,
            final(app).target_uniforms,
            final(app).exit,
            res.messages@,
        ),
        final(app).current_uniforms == old(app).current_uniforms,
        final(app).last_uniform_update == old(app).last_uniform_update,
        block_holds(res.params, old(app).current_uniforms, time),
        res.wallpaper matches Some(i) ==> i < old(app).wallpapers@.len()
            && old(app).wallpapers@[i as int].layer == layer,
        forall|j: int|
            0 <= j < old(app).wallpapers@.len() && (#[trigger] old(app).wallpapers@[j]).layer
                == layer ==> res.wallpaper is Some && res.wallpaper->0 <= j,
        res.wallpaper is Some ==> res.task == Task::ConfigureFirst,
        res.wallpaper is None ==> res.task == Task::Finished,
        res.wallpaper is None ==> final(app).wallpapers@ == old(app).wallpapers@,
        final(app).shrink_horizontal == old(app).shrink_horizontal,
        final(app).shrink_vertical == old(app).shrink_vertical,
        final(app).decay_time == old(app).decay_time,
        final(app).frame_time == old(app).frame_time,
{
    lemma_run_follows_commands(
        app.target_uniforms,
        app.exit,
        cmds@,
        final(app).target_uniforms,
        final(app).exit,
        res.messages@,
    );
}

/// Looking a wallpaper up gives one that is drawn on the surface, or lies on the layer, that was
/// asked for, and none before it does; it gives none only where there is none.
pub proof fn law_lookups_find_the_first<H>(
    app: &App<H>,
    surface: u32,
    by_surface: Option<usize>,
    layer: u32,
    by_layer: Option<usize>,
    j: int,
)
    requires
        call_ensures(App::<H>::wallpaper_index_by_surface, (app, surface), by_surface),
        call_ensures(App::<H>::wallpaper_index_by_layer, (app, layer), by_layer),
        0 <= j < app.wallpapers@.len(),
    ensures
        by_surface matches Some(i) ==> i < app.wallpapers@.len()
            && app.wallpapers@[i as int].surface == surface,
        app.wallpapers@[j].surface == surface ==> by_surface is Some && by_surface->0 <= j,
        by_layer matches Some(i) ==> i < app.wallpapers@.len() && app.wallpapers@[i as int].layer
            == layer,
        app.wallpapers@[j].layer == layer ==> by_layer is Some && by_layer->0 <= j,
{
}

/// An output has a wallpaper where one of the wallpapers is for it.
pub proof fn law_covered_outputs_have_a_wallpaper<H>(app: &App<H>, output: u32, res: bool)
    requires
        call_ensures(App::<H>::has_wallpaper_for, (app, output), res),
    ensures
        res <==> exists|i: int|
            0 <= i < app.wallpapers@.len() && (#[trigger] app.wallpapers@[i]).output == output,
{
}

/// The textures of a new wallpaper have the initial size shrunk by the renderer's factors.
pub proof fn law_initial_state_is_shrunk<H>(app: &App<H>, res: Extent)
    requires
        app.shrink_horizontal > 0,
        app.shrink_vertical > 0,
        call_ensures(App::<H>::initial_state, (app,), res),
    ensures
        crate::wallpaper::fits_times(1920, app.shrink_horizontal, res.width),
        crate::wallpaper::fits_times(1080, app.shrink_vertical, res.height),
{
    crate::wallpaper::lemma_quotient_fits(INITIAL_WIDTH, app.shrink_horizontal);
    crate::wallpaper::lemma_quotient_fits(INITIAL_HEIGHT, app.shrink_vertical);
}

/// An output that has no wallpaper gets one, after all the others, for the layer and the surface
/// it was made with; an output that has one keeps it, and nothing is added. Afterwards it has one
/// in either case, so asking again adds nothing. No other wallpaper, and nothing else, changes.
pub proof fn law_output_gets_one_wallpaper<H>(
    app: &mut App<H>,
    output: u32,
    layer: u32,
    surface: u32,
    handle: H,
    res: bool,
    next: &mut App<H>,
    again: bool,
)
    requires
        call_ensures(
            App::<H>::create_wallpaper_for_output,
            (app, output, layer, surface, handle),
            res,
        ),
        *next == *final(app),
        call_ensures(
            App::<H>::create_wallpaper_for_output,
            (next, output, layer, surface, handle),
            again,
        ),
    ensures
        !res <==> exists|i: int|
            0 <= i < old(app).wallpapers@.len() && (#[trigger] old(app).wallpapers@[i]).output
                == output,
        final(app).wallpapers@.len() == old(app).wallpapers@.len() + if res {
            1int
        } else {
            0int
        },
        forall|i: int|
            0 <= i < old(app).wallpapers@.len() ==> #[trigger] final(app).wallpapers@[i]
                == old(app).wallpapers@[i],
        res ==> ({
            let added = final(app).wallpapers@.last();
            &&& added.output == output
            &&& added.layer == layer
            &&& added.surface == surface
            &&& added.handle == handle
            &&& added.shrink_horizontal == old(app).shrink_horizontal
            &&& added.shrink_vertical == old(app).shrink_vertical
            &&& added.width == 1920
            &&& added.height == 1080
            &&& added.read_state == crate::wallpaper::ReadState::StateA
        }),
        !again,
        final(next).wallpapers@ == final(app).wallpapers@,
        final(app).current_uniforms == old(app).current_uniforms,
        final(app).target_uniforms == old(app).target_uniforms,
        final(app).last_uniform_update == old(app).last_uniform_update,
        final(app).shrink_horizontal == old(app).shrink_horizontal,
        final(app).shrink_vertical == old(app).shrink_vertical,
        final(app).decay_time == old(app).decay_time,
        final(app).frame_time == old(app).frame_time,
        final(app).exit == old(app).exit,
{
    if res {
        let all = final(app).wallpapers@;
        assert(all[all.len() - 1].output == output);
        assert(covers(all, output));
    } else {
        assert(covers(final(app).wallpapers@, output));
    }
}

/// When an output is gone, its wallpapers are, and those of every other output stay, in their
/// order. Nothing else changes.
pub proof fn law_gone_output_loses_its_wallpapers<H>(app: &mut App<H>, output: u32)
    requires
        call_ensures(App::<H>::output_destroyed, (app, output), ()),
    ensures
        forall|i: int|
            0 <= i < final(app).wallpapers@.len() ==> (
            #[trigger] final(app).wallpapers@[i]).output != output && old(
                app,
            ).wallpapers@.contains(final(app).wallpapers@[i]),
        forall|i: int|
            0 <= i < old(app).wallpapers@.len() && (#[trigger] old(app).wallpapers@[i]).output
                != output ==> final(app).wallpapers@.contains(old(app).wallpapers@[i]),
        (forall|i: int|
            0 <= i < old(app).wallpapers@.len() ==> (#[trigger] old(app).wallpapers@[i]).output
                != output) ==> final(app).wallpapers@ == old(app).wallpapers@,
        final(app).current_uniforms == old(app).current_uniforms,
        final(app).target_uniforms == old(app).target_uniforms,
        final(app).last_uniform_update == old(app).last_uniform_update,
        final(app).shrink_horizontal == old(app).shrink_horizontal,
        final(app).shrink_vertical == old(app).shrink_vertical,
        final(app).decay_time == old(app).decay_time,
        final(app).frame_time == old(app).frame_time,
        final(app).exit == old(app).exit,
{
    let all = app.wallpapers@;
    let keep = |w: Wallpaper<H>| w.output != output;
    let kept = final(app).wallpapers@;
    assert(kept == all.filter(keep));
    assert forall|i: int| 0 <= i < kept.len() implies (#[trigger] kept[i]).output != output
        && all.contains(kept[i]) by {
        all.lemma_filter_pred(keep, i);
        assert(keep(kept[i]));
        assert(kept.contains(kept[i]));
        all.lemma_filter_contains_rev(keep, kept[i]);
    }
    assert forall|i: int|
        0 <= i < all.len() && (#[trigger] all[i]).output != output implies kept.contains(all[i]) by {
        assert(keep(all[i]));
        all.lemma_filter_contains(keep, i);
    }
    if forall|i: int| 0 <= i < all.len() ==> (#[trigger] all[i]).output != output {
        lemma_all_kept(all, output);
    }
}

/// Letting go of an output that has no wallpaper lets go of none.
proof fn lemma_all_kept<H>(all: Seq<Wallpaper<H>>, output: u32)
    requires
        forall|i: int| 0 <= i < all.len() ==> (#[trigger] all[i]).output != output,
    ensures
        all.filter(|w: Wallpaper<H>| w.output != output) == all,
    decreases all.len(),
{
    reveal(Seq::filter);
    if all.len() > 0 {
        let rest = all.drop_last();
        assert forall|i: int| 0 <= i < rest.len() implies (#[trigger] rest[i]).output != output by {
            assert(rest[i] == all[i]);
        }
        lemma_all_kept(rest, output);
        assert(all[all.len() - 1].output != output);
        assert(rest.push(all.last()) =~= all);
    } else {
        assert(all.filter(|w: Wallpaper<H>| w.output != output) =~= all);
    }
}

/// Wallpapers that stay keep their order: letting go of an output in a row of wallpapers is
/// letting go of it in each part of the row.
pub proof fn law_letting_go_keeps_order<H>(
    first: &mut App<H>,
    second: &mut App<H>,
    whole: &mut App<H>,
    output: u32,
)
    requires
        whole.wallpapers@ == first.wallpapers@ + second.wallpapers@,
        call_ensures(App::<H>::output_destroyed, (first, output), ()),
        call_ensures(App::<H>::output_destroyed, (second, output), ()),
        call_ensures(App::<H>::output_destroyed, (whole, output), ()),
    ensures
        final(whole).wallpapers@ == final(first).wallpapers@ + final(second).wallpapers@,
{
    Seq::filter_distributes_over_add(
        first.wallpapers@,
        second.wallpapers@,
        |w: Wallpaper<H>| w.output != output,
    );
}

/// A closed surface ends the renderer, and changes nothing else.
pub proof fn law_closing_ends_the_renderer<H>(app: &mut App<H>)
    requires
        call_ensures(App::<H>::closed, (app,), ()),
    ensures
        final(app).exit,
        *final(app) == (App { exit: final(app).exit, ..*old(app) }),
{
}

} // verus!
