use automapaper::params::{Params, UniformState};
use automapaper::pixels::{opaque_pixels, randomize_state_texture, texture_fits};
use automapaper::schedule::{Action, Task};
use automapaper::single::Single;
use automapaper::wallpaper::{
    choose_surface, state_size, Extent, Passes, PresentMode, ReadState, SurfaceStatus, Wallpaper,
};

fn wallpaper() -> Wallpaper<&'static str> {
    Wallpaper::new(1, 2, 3, 10, 20, "card")
}

fn params() -> Params {
    let state = UniformState::default();
    let one = Single::from_bits(0x3f80_0000);
    Params {
        resolution: [one, one],
        time: Single::from_bits(5),
        time_scale: state.time_scale,
        c1: state.c1,
        c2: state.c2,
        c3: state.c3,
        c4: state.c4,
        mouse: state.mouse,
        mouse_active: Single::from_bits(0),
    }
}

fn performed(mut task: Task, needs_reconfigure: bool) -> Vec<Action> {
    let mut actions = Vec::new();
    while let Some(action) = task.action() {
        actions.push(action);
        task = task.next(needs_reconfigure);
    }
    actions
}

#[test]
fn swap_goes_back_and_forth() {
    assert_eq!(ReadState::StateA.swap(), ReadState::StateB);
    assert_eq!(ReadState::StateB.swap(), ReadState::StateA);
    assert_eq!(ReadState::StateA.swap().swap(), ReadState::StateA);
}

#[test]
fn new_wallpaper_starts_in_its_initial_size() {
    let w = wallpaper();
    assert_eq!((w.output(), w.layer(), w.wl_surface()), (1, 2, 3));
    assert_eq!((w.width, w.height), (1920, 1080));
    assert_eq!((w.shrink_horizontal, w.shrink_vertical), (10, 20));
    assert_eq!(w.read_state, ReadState::StateA);
    assert_eq!(w.handle, "card");
}

#[test]
fn first_srgb_format_is_preferred() {
    let modes = vec![PresentMode::Fifo];
    assert_eq!(choose_surface(&vec![false, true, true], &modes, 1).format, 1);
    assert_eq!(choose_surface(&vec![false, false], &modes, 1).format, 0);
    assert_eq!(choose_surface(&vec![true], &modes, 3).alpha_mode, 0);
}

#[test]
fn mailbox_is_preferred_to_fifo() {
    let pick = |modes: Vec<PresentMode>| choose_surface(&vec![true], &modes, 1).present_mode;
    assert_eq!(
        pick(vec![PresentMode::Fifo, PresentMode::Unused, PresentMode::Mailbox]),
        PresentMode::Mailbox
    );
    assert_eq!(pick(vec![PresentMode::Unused]), PresentMode::Fifo);
    assert_eq!(pick(vec![]), PresentMode::Fifo);
}

#[test]
fn state_is_the_surface_divided() {
    assert_eq!(state_size(1920, 10, 1080, 10), Extent { width: 192, height: 108 });
    assert_eq!(state_size(1366, 7, 5, 10), Extent { width: 195, height: 0 });
}

#[test]
fn configuring_begins_anew_in_the_current_size() {
    let mut w = wallpaper();
    w.draw(SurfaceStatus::Success);
    assert_eq!(w.read_state, ReadState::StateB);
    w.set_size(800, 600);
    let plan = w.reconfigure();
    assert_eq!(plan.surface, Extent { width: 800, height: 600 });
    assert_eq!(plan.state, Extent { width: 80, height: 30 });
    assert_eq!(plan.desired_maximum_frame_latency, 2);
    assert_eq!(w.read_state, ReadState::StateA);
}

#[test]
fn surface_is_never_configured_empty() {
    let mut w = wallpaper();
    w.set_size(0, 0);
    let plan = w.reconfigure();
    assert_eq!(plan.surface, Extent { width: 1, height: 1 });
    assert_eq!(plan.state, Extent { width: 0, height: 0 });
}

#[test]
fn drawn_frames_alternate_between_the_textures() {
    let mut w = wallpaper();
    let first = w.draw(SurfaceStatus::Success).passes;
    assert_eq!(first, Some(Passes { read: ReadState::StateA, write: ReadState::StateB }));
    assert_eq!(w.draw(SurfaceStatus::Timeout).passes, None);
    let second = w.draw(SurfaceStatus::Suboptimal).passes;
    assert_eq!(second, Some(Passes { read: ReadState::StateB, write: ReadState::StateA }));
    assert_eq!(w.draw(SurfaceStatus::Lost).passes, None);
    let third = w.draw(SurfaceStatus::Success).passes;
    assert_eq!(third, first);
}

#[test]
fn frame_after_a_reconfiguration_reads_the_first_texture() {
    let mut w = wallpaper();
    w.draw(SurfaceStatus::Success);
    let stale = w.draw(SurfaceStatus::Suboptimal);
    assert!(stale.needs_reconfigure);
    w.draw(SurfaceStatus::Success);
    w.reconfigure();
    assert_eq!(w.draw(SurfaceStatus::Occluded).passes, None);
    let first = w.draw(SurfaceStatus::Success).passes;
    assert_eq!(first, Some(Passes { read: ReadState::StateA, write: ReadState::StateB }));
    let second = w.draw(SurfaceStatus::Success).passes;
    assert_eq!(second, Some(Passes { read: ReadState::StateB, write: ReadState::StateA }));
}

#[test]
fn each_status_has_its_consequence() {
    let cases = [
        (SurfaceStatus::Success, true, false),
        (SurfaceStatus::Suboptimal, true, true),
        (SurfaceStatus::Timeout, false, false),
        (SurfaceStatus::Occluded, false, false),
        (SurfaceStatus::Outdated, false, true),
        (SurfaceStatus::Lost, false, true),
        (SurfaceStatus::Validation, false, false),
    ];
    for (status, draws, reconfigures) in cases {
        let mut w = wallpaper();
        let plan = w.draw(status);
        assert_eq!(plan.passes.is_some(), draws);
        assert_eq!(plan.needs_reconfigure, reconfigures);
        let expected = if draws { ReadState::StateB } else { ReadState::StateA };
        assert_eq!(w.read_state, expected);
        if status == SurfaceStatus::Validation {
            assert_eq!(plan.report.as_deref(), Some("surface validation error"));
        } else {
            assert_eq!(plan.report, None);
        }
    }
}

#[test]
fn frame_params_take_the_size_of_the_surface() {
    let mut w = wallpaper();
    w.set_size(2560, 16_777_217);
    let res = w.frame_params(&params());
    assert_eq!(f32::from_bits(res.resolution[0].bits), 2560.0);
    assert_eq!(f32::from_bits(res.resolution[1].bits), 16_777_217u32 as f32);
    assert_eq!(res.time.bits, 5);
    assert_eq!(res.words()[2..], params().words()[2..]);
}

#[test]
fn noise_becomes_opaque_pixels() {
    assert_eq!(opaque_pixels(&vec![1, 2, 3, 4, 5, 6]), vec![1, 2, 3, 255, 4, 5, 6, 255]);
    assert_eq!(opaque_pixels(&vec![]), Vec::<u8>::new());
}

#[test]
fn random_texture_has_the_size_and_layout_asked_for() {
    let upload = randomize_state_texture(64, 33);
    assert_eq!(upload.data.len(), 64 * 33 * 4);
    assert_eq!(upload.bytes_per_row, 256);
    assert_eq!(upload.rows_per_image, 33);
    for pixel in upload.data.chunks_exact(4) {
        assert_eq!(pixel[3], 255);
    }
    assert_ne!(upload.data, randomize_state_texture(64, 33).data);
    assert_eq!(randomize_state_texture(0, 5).data.len(), 0);
}

#[test]
fn textures_that_cannot_be_counted_do_not_fit() {
    assert!(texture_fits(192, 108));
    assert!(texture_fits(32_768, 32_767));
    assert!(!texture_fits(32_768, 32_768));
    assert!(!texture_fits(0x4000_0000, 0));
    assert!(texture_fits(0, u32::MAX));
    assert!(!texture_fits(u32::MAX, u32::MAX));
}

#[test]
fn frame_is_drawn_before_the_next_is_asked_for() {
    assert_eq!(performed(Task::FrameDraw, false), vec![Action::Draw, Action::RequestFrame]);
    assert_eq!(
        performed(Task::FrameDraw, true),
        vec![Action::Draw, Action::Reconfigure, Action::RequestFrame]
    );
}

#[test]
fn new_size_is_configured_before_it_is_drawn() {
    assert_eq!(
        performed(Task::ConfigureFirst, false),
        vec![Action::Reconfigure, Action::RequestFrame, Action::Draw]
    );
    assert_eq!(
        performed(Task::ConfigureFirst, true),
        vec![Action::Reconfigure, Action::RequestFrame, Action::Draw, Action::Reconfigure]
    );
}
