use automapaper::config::{
    config_dir_in, config_dir_of, config_file_in, get_config, get_config_dir, true_path, true_path_in, Config,
};
use automapaper::path::{is_relative, join};
use automapaper::uniform::ColorValue;
use std::path::Path;

fn rgb(color: ColorValue) -> [f32; 3] {
    match color {
        ColorValue::ColorRgb(c) => c.map(|s| f32::from_bits(s.bits)),
        ColorValue::ColorRgba(_) => panic!("unexpected alpha"),
    }
}

#[test]
fn joining_is_what_std_does() {
    for dir in ["", "/", "/home/u", "/home/u/", "rel", "rel/"] {
        for path in ["", "a", "./a", "a/b", "/", "/abs/x"] {
            let expected = Path::new(dir).join(path);
            let res = join(dir.as_bytes(), path.as_bytes());
            assert_eq!(res, expected.to_str().unwrap().as_bytes(), "{dir:?} {path:?}");
            assert_eq!(is_relative(path.as_bytes()), Path::new(path).is_relative());
        }
    }
}

#[test]
fn joined_paths_nest() {
    let res = join(b"/home/u", b"x/y");
    assert!(res.starts_with(b"/home/u"));
    assert!(res.ends_with(b"x/y"));
    assert!(!is_relative(&res));
}

#[test]
fn default_configuration() {
    let config = Config::default();
    assert_eq!(config.state_shader_path, b"./state.glsl");
    assert_eq!(config.display_shader_path, b"./display.glsl");
    assert_eq!(rgb(config.c1), [0., 0., 0.]);
    assert_eq!(rgb(config.c2), [0., 1., 0.]);
    assert_eq!(rgb(config.c3), [0., 0., 1.]);
    assert_eq!(rgb(config.c4), [1., 1., 1.]);
    assert_eq!(config.state_shrink_h, 10);
    assert_eq!(config.state_shrink_v, 10);
    assert_eq!(f32::from_bits(config.decay_time.bits), 0.1);
    assert_eq!(f32::from_bits(config.frame_time.bits), 1.0 / 10.0);
}

#[test]
fn default_is_for_those_without_a_file() {
    assert!(get_config(true).is_none());
    assert_eq!(get_config(false).unwrap().state_shader_path, b"./state.glsl");
}

#[test]
fn configuration_lies_in_the_directory_of_the_program() {
    let dir = config_dir_in(b"/home/u/.config");
    assert_eq!(dir, b"/home/u/.config/automapaper-ng");
    assert_eq!(config_file_in(&dir), b"/home/u/.config/automapaper-ng/config.toml");
}

#[test]
fn program_has_a_directory_where_the_user_has_one() {
    let base = b"/home/u/.config/".to_vec();
    assert_eq!(
        config_dir_of(Some(&base)),
        Some(b"/home/u/.config/automapaper-ng".to_vec())
    );
    assert_eq!(config_dir_of(None), None);
}

#[test]
fn configuration_directory_is_the_one_that_dirs_names() {
    let expected = dirs::config_dir()
        .map(|dir| dir.join("automapaper-ng").to_str().unwrap().as_bytes().to_vec());
    assert_eq!(get_config_dir(), expected);
}

#[test]
fn relative_paths_are_taken_from_the_directory() {
    let dir = b"/c/automapaper-ng".to_vec();
    assert_eq!(
        true_path_in(Some(&dir), b"./state.glsl"),
        Some(b"/c/automapaper-ng/./state.glsl".to_vec())
    );
    assert_eq!(true_path_in(Some(&dir), b"/x/s.glsl"), Some(b"/x/s.glsl".to_vec()));
    assert_eq!(true_path_in(None, b"/x/s.glsl"), Some(b"/x/s.glsl".to_vec()));
    assert_eq!(true_path_in(None, b"s.glsl"), None);
}

#[test]
fn resolving_twice_changes_nothing() {
    let dir = b"/c/automapaper-ng".to_vec();
    let other = b"/elsewhere".to_vec();
    let once = true_path_in(Some(&dir), b"./state.glsl").unwrap();
    assert!(!is_relative(&once));
    assert_eq!(true_path_in(Some(&dir), &once), Some(once.clone()));
    assert_eq!(true_path_in(Some(&other), &once), Some(once.clone()));
    assert_eq!(true_path(&once), Some(once));
}

#[test]
fn paths_of_the_shaders() {
    let mut config = Config::default();
    config.display_shader_path = b"/abs/d.glsl".to_vec();
    assert_eq!(config.get_display_path(), Some(b"/abs/d.glsl".to_vec()));
    let expected = get_config_dir().map(|dir| join(&dir, b"./state.glsl"));
    assert_eq!(config.get_state_path(), expected);
    assert_eq!(true_path(b"./state.glsl"), expected);
}
