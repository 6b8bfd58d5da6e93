use automapaper::config::Config;
use automapaper::ipc::AppCommand;
use automapaper::params::UniformState;
use automapaper::renderer::{command_brings_shader, App, Ease};
use automapaper::schedule::{first_task, Event, Task};
use automapaper::single::Single;
use automapaper::text::same_text;
use automapaper::uniform::{parse_uniform_value, ColorValue};
use std::cell::RefCell;

fn app() -> App<u8> {
    App::new(&Config::default(), 1_000)
}

fn color(text: &str) -> ColorValue {
    parse_uniform_value(text).unwrap()
}

fn set(name: &str, text: &str) -> AppCommand {
    AppCommand::SetUniform { name: name.into(), value: color(text) }
}

fn floats(c: [Single; 4]) -> [f32; 4] {
    c.map(|s| f32::from_bits(s.bits))
}

fn targets(state: &UniformState) -> [[f32; 4]; 4] {
    [floats(state.c1), floats(state.c2), floats(state.c3), floats(state.c4)]
}

fn to_target(_: Ease, _: Single, b: Single) -> Single {
    b
}

#[test]
fn texts_are_compared() {
    assert!(same_text("c1", "c1"));
    assert!(!same_text("c1", "c2"));
    assert!(!same_text("c1", "c11"));
    assert!(same_text("", ""));
    assert!(!same_text("é", "e"));
}

#[test]
fn renderer_starts_at_its_target() {
    let app = app();
    assert_eq!(targets(&app.current_uniforms), targets(&app.target_uniforms));
    assert_eq!(
        targets(&app.current_uniforms),
        [[0., 0., 0., 1.], [0., 1., 0., 1.], [0., 0., 1., 1.], [1., 1., 1., 1.]]
    );
    assert_eq!(f32::from_bits(app.current_uniforms.time_scale.bits), 1.0);
    assert_eq!(app.last_uniform_update, 1_000);
    assert_eq!((app.shrink_horizontal, app.shrink_vertical), (10, 10));
    assert!(app.wallpapers.is_empty());
    assert!(!app.exit);
}

#[test]
fn colour_update_sets_its_target_alone() {
    let mut app = app();
    assert_eq!(app.apply_color_update("c2", color("ff0000")), Ok(()));
    assert_eq!(
        targets(&app.target_uniforms),
        [[0., 0., 0., 1.], [1., 0., 0., 1.], [0., 0., 1., 1.], [1., 1., 1., 1.]]
    );
    assert_eq!(targets(&app.current_uniforms)[1], [0., 1., 0., 1.]);
    assert_eq!(app.apply_color_update("c1", color("00000000")), Ok(()));
    assert_eq!(app.apply_color_update("c3", color("00ff00")), Ok(()));
    assert_eq!(app.apply_color_update("c4", color("00ffff")), Ok(()));
    assert_eq!(
        targets(&app.target_uniforms),
        [[0., 0., 0., 0.], [1., 0., 0., 1.], [0., 1., 0., 1.], [0., 1., 1., 1.]]
    );
}

#[test]
fn unknown_uniforms_are_refused() {
    let mut app = app();
    let before = targets(&app.target_uniforms);
    for name in ["c5", "C1", "", "c1 ", "time_scale"] {
        assert_eq!(
            app.apply_color_update(name, color("ffffff")),
            Err(format!("unsupported assignment: {name}"))
        );
    }
    assert_eq!(targets(&app.target_uniforms), before);
}

#[test]
fn commands_are_followed_in_their_order() {
    let mut app = app();
    let messages = app.handle_pending_commands(&vec![
        set("c1", "ff0000"),
        set("nope", "ffffff"),
        set("c1", "0000ff"),
        set("also", "ffffff"),
    ]);
    assert_eq!(
        messages,
        vec![
            "uniform update failed: unsupported assignment: nope",
            "uniform update failed: unsupported assignment: also",
        ]
    );
    assert_eq!(targets(&app.target_uniforms)[0], [0., 0., 1., 1.]);
    assert!(!app.exit);
}

#[test]
fn batches_can_be_split() {
    let commands = || vec![set("c1", "ff0000"), set("c2", "00ff00"), set("c1", "ffff00")];
    let mut whole = app();
    whole.handle_pending_commands(&commands());
    let mut split = app();
    for cmd in commands() {
        assert_eq!(split.handle_command(&cmd), None);
    }
    assert_eq!(targets(&whole.target_uniforms), targets(&split.target_uniforms));
}

#[test]
fn stop_is_not_taken_back() {
    let mut app = app();
    assert_eq!(app.handle_command(&AppCommand::Stop), None);
    assert!(app.exit);
    app.handle_pending_commands(&vec![set("c1", "ff0000")]);
    assert!(app.exit);
}

#[test]
fn closing_ends_the_renderer() {
    let mut app = app();
    app.closed();
    assert!(app.exit);
}

#[test]
fn updates_decay_by_the_time_since_the_last() {
    let mut app = app();
    let seen = RefCell::new(Vec::new());
    let blend = |ease: Ease, _: Single, b: Single| {
        seen.borrow_mut().push(ease);
        b
    };
    app.handle_command(&set("c1", "ffffff"));
    app.update_uniforms(4_000, &blend);
    assert_eq!(seen.borrow().len(), 17);
    assert!(seen.borrow().iter().all(|e| *e == Ease::Decay { elapsed: 3_000 }));
    assert_eq!(app.last_uniform_update, 4_000);
    assert_eq!(targets(&app.current_uniforms)[0], [1., 1., 1., 1.]);
    seen.borrow_mut().clear();
    app.update_uniforms(3_500, &blend);
    assert!(seen.borrow().iter().all(|e| *e == Ease::Decay { elapsed: 0 }));
    assert_eq!(app.last_uniform_update, 3_500);
}

#[test]
fn without_decay_time_uniforms_jump() {
    for decay in [0.0f32, -0.0, -1.0] {
        let mut app = app();
        app.decay_time = Single::from_bits(decay.to_bits());
        app.update_uniforms(2_000, &|ease: Ease, _: Single, b: Single| {
            assert_eq!(ease, Ease::Jump);
            b
        });
        assert_eq!(app.last_uniform_update, 2_000);
    }
}

#[test]
fn common_params_hold_the_current_uniforms() {
    let app = app();
    let params = app.make_params(Single::from_bits(2.5f32.to_bits()));
    assert_eq!(params.resolution.map(|s| f32::from_bits(s.bits)), [1., 1.]);
    assert_eq!(f32::from_bits(params.time.bits), 2.5);
    assert_eq!(f32::from_bits(params.time_scale.bits), 1.0);
    assert_eq!(floats(params.c2), [0., 1., 0., 1.]);
    assert_eq!(floats(params.c4), [1., 1., 1., 1.]);
    assert_eq!(params.mouse.map(|s| f32::from_bits(s.bits)), [0.5, 0.5]);
    assert_eq!(params.mouse_active.bits, 0);
}

#[test]
fn each_output_gets_one_wallpaper() {
    let mut app = app();
    assert!(!app.has_wallpaper_for(5));
    assert!(app.create_wallpaper_for_output(5, 50, 500, 1));
    assert!(app.has_wallpaper_for(5));
    assert!(!app.create_wallpaper_for_output(5, 51, 501, 2));
    assert!(app.create_wallpaper_for_output(6, 60, 600, 3));
    assert_eq!(app.wallpapers.len(), 2);
    assert_eq!(app.wallpapers[0].handle, 1);
    assert_eq!(app.wallpapers[1].handle, 3);
    assert_eq!(app.wallpapers[1].shrink_vertical, 10);
}

#[test]
fn wallpapers_are_found_by_surface_and_layer() {
    let mut app = app();
    app.create_wallpaper_for_output(5, 50, 500, 1);
    app.create_wallpaper_for_output(6, 60, 600, 2);
    assert_eq!(app.wallpaper_index_by_surface(600), Some(1));
    assert_eq!(app.wallpaper_index_by_surface(60), None);
    assert_eq!(app.wallpaper_index_by_layer(50), Some(0));
    assert_eq!(app.wallpaper_index_by_layer(500), None);
}

#[test]
fn destroyed_output_loses_its_wallpaper_alone() {
    let mut app = app();
    for output in [5, 6, 7] {
        app.create_wallpaper_for_output(output, output * 10, output * 100, output as u8);
    }
    app.output_destroyed(6);
    let left: Vec<u32> = app.wallpapers.iter().map(|w| w.output()).collect();
    assert_eq!(left, vec![5, 7]);
    app.output_destroyed(6);
    assert_eq!(app.wallpapers.len(), 2);
    app.output_destroyed(5);
    app.output_destroyed(7);
    assert!(app.wallpapers.is_empty());
    assert!(app.create_wallpaper_for_output(6, 1, 2, 9));
}

#[test]
fn frame_follows_commands_before_it_eases() {
    let mut app = app();
    app.create_wallpaper_for_output(5, 50, 500, 1);
    let cmds = vec![set("c3", "ff00ff"), set("c9", "000000")];
    let turn = app.frame(500, &cmds, 9_000, &to_target, Single::from_bits(7));
    assert_eq!(turn.wallpaper, Some(0));
    assert_eq!(turn.task, Task::FrameDraw);
    assert_eq!(floats(turn.params.c3), [1., 0., 1., 1.]);
    assert_eq!(turn.params.time.bits, 7);
    assert_eq!(turn.messages, vec!["uniform update failed: unsupported assignment: c9"]);
    assert_eq!(app.last_uniform_update, 9_000);
    let other = app.frame(501, &vec![], 9_001, &to_target, Single::from_bits(8));
    assert_eq!(other.wallpaper, None);
    assert_eq!(other.task, Task::Finished);
}

#[test]
fn configuring_takes_the_size_asked_for() {
    let mut app = app();
    app.create_wallpaper_for_output(5, 50, 500, 1);
    app.create_wallpaper_for_output(6, 60, 600, 2);
    let cmds = vec![set("c3", "ff00ff")];
    let turn = app.configure(60, (2560, 0), &cmds, Single::from_bits(7));
    assert_eq!(turn.wallpaper, Some(1));
    assert_eq!(turn.task, Task::ConfigureFirst);
    assert_eq!((app.wallpapers[1].width, app.wallpapers[1].height), (2560, 256));
    assert_eq!((app.wallpapers[0].width, app.wallpapers[0].height), (1920, 1080));
    let plan = app.wallpapers[1].reconfigure();
    assert_eq!((plan.surface.width, plan.surface.height), (2560, 256));
    assert_eq!((plan.state.width, plan.state.height), (256, 25));
    assert_eq!(floats(turn.params.c3), [0., 0., 1., 1.]);
    assert_eq!(targets(&app.target_uniforms)[2], [1., 0., 1., 1.]);
    assert_eq!(app.last_uniform_update, 1_000);
    let other = app.configure(61, (1, 1), &vec![], Single::from_bits(0));
    assert_eq!(other.wallpaper, None);
    assert_eq!(other.task, Task::Finished);
}

#[test]
fn shader_commands_are_told_from_others() {
    let fragment_glsl = String::new;
    assert!(command_brings_shader(&AppCommand::DisplayShader { fragment_glsl: fragment_glsl() }));
    assert!(command_brings_shader(&AppCommand::StateShader { fragment_glsl: fragment_glsl() }));
    assert!(command_brings_shader(&AppCommand::InitShader { fragment_glsl: fragment_glsl() }));
    assert!(!command_brings_shader(&set("c1", "000000")));
    assert!(!command_brings_shader(&AppCommand::Stop));
}

#[test]
fn events_start_their_tasks() {
    assert_eq!(first_task(Event::Frame, Some(3)), Task::FrameDraw);
    assert_eq!(first_task(Event::Configure, Some(0)), Task::ConfigureFirst);
    assert_eq!(first_task(Event::Frame, None), Task::Finished);
    assert_eq!(first_task(Event::Configure, None), Task::Finished);
}

#[test]
fn new_wallpapers_start_with_the_state_of_their_size() {
    let mut app = app();
    app.shrink_vertical = 20;
    let state = app.initial_state();
    assert_eq!((state.width, state.height), (192, 54));
    app.create_wallpaper_for_output(5, 50, 500, 1);
    assert_eq!(app.wallpapers[0].reconfigure().state, state);
}
