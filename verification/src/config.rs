//! The configuration: its defaults, and where it and the files it names are found.
use crate::path::{is_relative, join};
use crate::single::{Single, ONE_BITS, TENTH_BITS, ZERO_BITS};
use crate::uniform::ColorValue;
use vstd::prelude::*;
use vstd::string::*;

verus! {

/// What the user can set.
#[derive(Debug)]
pub struct Config {
    pub state_shader_path: Vec<u8>,
    pub display_shader_path: Vec<u8>,
    pub c1: ColorValue,
    pub c2: ColorValue,
    pub c3: ColorValue,
    pub c4: ColorValue,
    pub state_shrink_h: u32,
    pub state_shrink_v: u32,
    pub decay_time: Single,
    pub frame_time: Single,
}

/// Whether `color` is the colour without alpha whose channels have the given bits.
pub open spec fn is_rgb(color: ColorValue, r: u32, g: u32, b: u32) -> bool {
    color matches ColorValue::ColorRgb(c) && c@ == seq![
        crate::single::single(r),
        crate::single::single(g),
        crate::single::single(b),
    ]
}

impl Config {
    /// Whether this is the configuration of a user who has written none.
    pub open spec fn is_default(self) -> bool {
        &&& self.state_shader_path@ == "./state.glsl".spec_bytes()
        &&& self.display_shader_path@ == "./display.glsl".spec_bytes()
        &&& is_rgb(self.c1, ZERO_BITS, ZERO_BITS, ZERO_BITS)
        &&& is_rgb(self.c2, ZERO_BITS, ONE_BITS, ZERO_BITS)
        &&& is_rgb(self.c3, ZERO_BITS, ZERO_BITS, ONE_BITS)
        &&& is_rgb(self.c4, ONE_BITS, ONE_BITS, ONE_BITS)
        &&& self.state_shrink_h == 10
        &&& self.state_shrink_v == 10
        &&& self.decay_time.bits == TENTH_BITS
        &&& self.frame_time.bits == TENTH_BITS
    }
}

impl Default for Config {
    fn default() -> (res: Config)
        ensures
            res.is_default(),
    {
        let zero = Single { bits: ZERO_BITS };
        let one = Single { bits: ONE_BITS };
        let tenth = Single { bits: TENTH_BITS };
        Config {
            state_shader_path: "./state.glsl".as_bytes_vec(),
            display_shader_path: "./display.glsl".as_bytes_vec(),
            c1: ColorValue::ColorRgb([zero, zero, zero]),
            c2: ColorValue::ColorRgb([zero, one, zero]),
            c3: ColorValue::ColorRgb([zero, zero, one]),
            c4: ColorValue::ColorRgb([one, one, one]),
            state_shrink_h: 10,
            state_shrink_v: 10,
            decay_time: tenth,
            frame_time: tenth,
        }
    }
}

/// The directory for configurations of this user, by `dirs::config_dir`: that of
/// `XDG_CONFIG_HOME` where it names an absolute path, else `.config` in the home directory, or
/// none where there is no home directory. The environment decides which. The contract claims
/// only that a directory that is found has a name.
#[verifier::external_body]
fn user_config_dir() -> (res: Option<Vec<u8>>)
    ensures
        res matches Some(dir) ==> dir@.len() > 0,
{
    match dirs::config_dir() {
        Some(dir) => Some(dir.into_os_string().into_encoded_bytes()),
        None => None,
    }
}

/// Whether asking for the directory for configurations of this user can be answered with `res`.
/// Nothing more is known of it: it holds of what was answered.
pub closed spec fn found_user_dir(res: Option<Vec<u8>>) -> bool {
    call_ensures(user_config_dir, (), res)
}

/// The directory of this program below the one for configurations.
pub fn config_dir_in(base: &[u8]) -> (res: Vec<u8>)
    ensures
        res@ == crate::path::joined(base@, "automapaper-ng".spec_bytes()),
{
    join(base, "automapaper-ng".as_bytes())
}

/// The directory of this program for a user whose directory for configurations is `base`: there
/// is one exactly where the user has that directory.
pub fn config_dir_of(base: Option<&Vec<u8>>) -> (res: Option<Vec<u8>>)
    ensures
        match base {
            Some(b) => res matches Some(dir) && dir@ == crate::path::joined(
                b@,
                "automapaper-ng".spec_bytes(),
            ),
            None => res is None,
        },
{
    match base {
        Some(b) => Some(config_dir_in(b.as_slice())),
        None => None,
    }
}

/// The directory that holds the configuration, or none where the user has no home: what
/// [`config_dir_of`] makes of the user's directory for configurations. The environment decides
/// whether there is such a directory and which it is; there is an answer exactly where it is
/// found, and the answer lies in the one that was found.
pub fn get_config_dir() -> (res: Option<Vec<u8>>)
    ensures
        res matches Some(dir) ==> exists|base: Seq<u8>|
            base.len() > 0 && dir@ == #[trigger] crate::path::joined(
                base,
                "automapaper-ng".spec_bytes(),
            ),
        exists|base: Option<Vec<u8>>| #[trigger]
            found_user_dir(base) && match base {
                Some(b) => res matches Some(dir) && dir@ == crate::path::joined(
                    b@,
                    "automapaper-ng".spec_bytes(),
                ),
                None => res is None,
            },
{
    let look_up = user_config_dir;
    let base = look_up();
    assert(found_user_dir(base));
    config_dir_of(base.as_ref())
}

/// The configuration file in the program's directory.
pub fn config_file_in(config_dir: &[u8]) -> (res: Vec<u8>)
    ensures
        res@ == crate::path::joined(config_dir@, "config.toml".spec_bytes()),
{
    join(config_dir, "config.toml".as_bytes())
}

/// Where a path of the configuration leads: an absolute path stands for itself, any other is
/// taken from the program's directory. There is no answer for a relative path without that
/// directory.
pub fn true_path_in(config_dir: Option<&Vec<u8>>, path: &[u8]) -> (res: Option<Vec<u8>>)
    ensures
        crate::path::is_absolute(path@) ==> (res matches Some(p) && p@ == path@),
        !crate::path::is_absolute(path@) ==> match config_dir {
            Some(dir) => res matches Some(p) && p@ == crate::path::joined(dir@, path@),
            None => res is None,
        },
{
    if is_relative(path) {
        match config_dir {
            Some(dir) => Some(join(dir.as_slice(), path)),
            None => None,
        }
    } else {
        Some(vstd::slice::slice_to_vec(path))
    }
}

/// Whether `res` is where a path of the configuration may lead, whatever directory the user
/// has for configurations.
pub open spec fn leads_to(path: Seq<u8>, res: Option<Vec<u8>>) -> bool {
    if crate::path::is_absolute(path) {
        res matches Some(p) && p@ == path
    } else {
        res matches Some(p) ==> exists|base: Seq<u8>|
            base.len() > 0 && p@ == crate::path::joined(
                #[trigger] crate::path::joined(base, "automapaper-ng".spec_bytes()),
                path,
            )
    }
}

/// Whether `res` is where a relative path leads from the program's directory, as
/// [`get_config_dir`] has found it: nowhere where it has found none.
pub open spec fn leads_from_config_dir(path: Seq<u8>, res: Option<Vec<u8>>) -> bool {
    exists|dir: Option<Vec<u8>>| #[trigger]
        call_ensures(get_config_dir, (), dir) && match dir {
            Some(d) => res matches Some(p) && p@ == crate::path::joined(d@, path),
            None => res is None,
        }
}

/// Where a path of the configuration leads. The directory of the program is asked for only
/// where the path needs it.
pub fn true_path(path: &[u8]) -> (res: Option<Vec<u8>>)
    ensures
        leads_to(path@, res),
        !crate::path::is_absolute(path@) ==> leads_from_config_dir(path@, res),
{
    if is_relative(path) {
        let look_up = get_config_dir;
        let dir = look_up();
        true_path_in(dir.as_ref(), path)
    } else {
        true_path_in(None, path)
    }
}

/// A path that has been found to be absolute leads to itself, so finding where it leads a second
/// time changes nothing.
pub proof fn law_absolute_path_leads_to_itself(path: Seq<u8>, res: Option<Vec<u8>>)
    requires
        crate::path::is_absolute(path),
        leads_to(path, res),
    ensures
        res is Some,
        res->0@ == path,
        crate::path::is_absolute(res->0@),
{
}

/// Taken from an absolute directory, every path leads to an absolute one, and where that leads is
/// itself, from whatever directory it is taken.
pub proof fn law_resolved_path_is_a_fixed_point(dir: Seq<u8>, other: Seq<u8>, path: Seq<u8>)
    requires
        crate::path::is_absolute(dir),
    ensures
        crate::path::is_absolute(crate::path::joined(dir, path)),
        crate::path::joined(other, crate::path::joined(dir, path)) == crate::path::joined(
            dir,
            path,
        ),
{
    crate::path::law_join_stays_absolute(dir, path);
}

impl Config {
    /// Where the state shader is found.
    pub fn get_state_path(&self) -> (res: Option<Vec<u8>>)
        ensures
            leads_to(self.state_shader_path@, res),
            !crate::path::is_absolute(self.state_shader_path@) ==> leads_from_config_dir(
                self.state_shader_path@,
                res,
            ),
    {
        true_path(self.state_shader_path.as_slice())
    }

    /// Where the display shader is found.
    pub fn get_display_path(&self) -> (res: Option<Vec<u8>>)
        ensures
            leads_to(self.display_shader_path@, res),
            !crate::path::is_absolute(self.display_shader_path@) ==> leads_from_config_dir(
                self.display_shader_path@,
                res,
            ),
    {
        true_path(self.display_shader_path.as_slice())
    }
}

/// The configuration to write out and run with where there is no configuration file. Where
/// there is one, it is to be read instead.
pub fn get_config(file_exists: bool) -> (res: Option<Config>)
    ensures
        match res {
            Some(config) => !file_exists && config.is_default(),
            None => file_exists,
        },
{
    if file_exists {
        None
    } else {
        Some(Config::default())
    }
}

/// The configuration file lies below the program's directory, and that below the directory for
/// configurations.
pub proof fn law_config_file_nests(base: Seq<u8>)
    ensures
        ({
            let dir = crate::path::joined(base, "automapaper-ng".spec_bytes());
            let file = crate::path::joined(dir, "config.toml".spec_bytes());
            base.is_prefix_of(dir) && dir.is_prefix_of(file)
        }),
{
    reveal_strlit("automapaper-ng");
    reveal_strlit("config.toml");
    broadcast use is_ascii_spec_bytes;

    assert("automapaper-ng".is_ascii());
    assert("config.toml".is_ascii());
    let name = "automapaper-ng".spec_bytes();
    let file = "config.toml".spec_bytes();
    assert(name[0] == 0x61);
    assert(file[0] == 0x63);
    crate::path::law_join_nests(base, name);
    crate::path::law_join_nests(crate::path::joined(base, name), file);
}

/// The program's directory lies in the directory for configurations that was found for the user,
/// whichever that is, and there is one exactly where that was found.
pub proof fn law_program_dir_lies_in_found_dir(res: Option<Vec<u8>>)
    requires
        call_ensures(get_config_dir, (), res),
    ensures
        exists|base: Option<Vec<u8>>| #[trigger]
            found_user_dir(base) && (res is Some <==> base is Some) && (res is Some
                ==> crate::path::is_taken_from(
                base->0@,
                "automapaper-ng".spec_bytes(),
                res->0@,
            )),
{
}

/// Of a given directory for configurations, the program's directory and its file are told the
/// same way, one below the other.
pub proof fn law_directories_are_nested(
    base: Option<&Vec<u8>>,
    dir: Option<Vec<u8>>,
    slice: &[u8],
    inner: Vec<u8>,
    file: Vec<u8>,
)
    requires
        call_ensures(config_dir_of, (base,), dir),
        call_ensures(config_dir_in, (slice,), inner),
        call_ensures(config_file_in, (slice,), file),
    ensures
        dir is Some <==> base is Some,
        dir is Some ==> crate::path::is_taken_from(
            base->0@,
            "automapaper-ng".spec_bytes(),
            dir->0@,
        ),
        crate::path::is_taken_from(slice@, "automapaper-ng".spec_bytes(), inner@),
        crate::path::is_taken_from(slice@, "config.toml".spec_bytes(), file@),
{
}

/// Whether `res` is where `path` leads in the environment of the program: itself where it starts
/// at the root, and otherwise that path taken from the very directory that [`get_config_dir`]
/// answered, with an answer exactly where there was one.
pub open spec fn is_found_at(path: Seq<u8>, res: Option<Vec<u8>>) -> bool {
    if path.len() > 0 && path[0] == 0x2f {
        res is Some && res->0@ == path
    } else {
        exists|dir: Option<Vec<u8>>| #[trigger]
            call_ensures(get_config_dir, (), dir) && (res is Some <==> dir is Some) && (res is Some
                ==> crate::path::is_taken_from(dir->0@, path, res->0@))
    }
}

/// A relative path leads below the directory that [`get_config_dir`] answers, and below no other;
/// there is an answer whenever the user has that directory. An absolute path leads to itself.
pub proof fn law_path_is_taken_from_config_dir(path: &[u8], res: Option<Vec<u8>>)
    requires
        call_ensures(true_path, (path,), res),
    ensures
        is_found_at(path@, res),
{
}

/// Both shaders are found where their own paths lead, in the same way.
pub proof fn law_shaders_are_taken_from_config_dir(
    config: &Config,
    state: Option<Vec<u8>>,
    display: Option<Vec<u8>>,
)
    requires
        call_ensures(Config::get_state_path, (config,), state),
        call_ensures(Config::get_display_path, (config,), display),
    ensures
        is_found_at(config.state_shader_path@, state),
        is_found_at(config.display_shader_path@, display),
{
}

/// From a given directory a path leads where [`crate::path::is_taken_from`] says. Without one a
/// path leads somewhere exactly where it starts at the root, and then to itself.
pub proof fn law_path_is_taken_from_given_dir(
    dir: Option<&Vec<u8>>,
    path: &[u8],
    res: Option<Vec<u8>>,
)
    requires
        call_ensures(true_path_in, (dir, path), res),
    ensures
        dir is Some ==> res is Some && crate::path::is_taken_from(dir->0@, path@, res->0@),
        dir is None ==> (res is Some <==> path@.len() > 0 && path@[0] == 0x2f),
        dir is None && res is Some ==> res->0@ == path@,
{
}

/// A user without a configuration file runs with the default configuration, field by field, and
/// one with such a file does not.
pub proof fn law_missing_file_means_default(file_exists: bool, res: Option<Config>, default: Config)
    requires
        call_ensures(get_config, (file_exists,), res),
        call_ensures(<Config as Default>::default, (), default),
    ensures
        res is None <==> file_exists,
        res matches Some(config) ==> {
            &&& config.state_shader_path@ == default.state_shader_path@
            &&& config.display_shader_path@ == default.display_shader_path@
            &&& config.c1.rgba() == default.c1.rgba()
            &&& config.c2.rgba() == default.c2.rgba()
            &&& config.c3.rgba() == default.c3.rgba()
            &&& config.c4.rgba() == default.c4.rgba()
            &&& config.state_shrink_h == default.state_shrink_h
            &&& config.state_shrink_v == default.state_shrink_v
            &&& config.decay_time == default.decay_time
            &&& config.frame_time == default.frame_time
        },
{
}

/// The program's directory ends with its name, and not with a separator.
proof fn lemma_program_dir_ends_with_name(base: Seq<u8>)
    ensures
        ({
            let dir = crate::path::joined(base, "automapaper-ng".spec_bytes());
            &&& dir.len() > 0
            &&& dir.last() != 0x2f
        }),
{
    reveal_strlit("automapaper-ng");
    broadcast use is_ascii_spec_bytes;

    assert("automapaper-ng".is_ascii());
    let name = "automapaper-ng".spec_bytes();
    assert(name.len() == 14);
    assert(name[0] == 0x61);
    assert(name[13] == 0x67);
    assert(crate::path::joined(base, name).last() == name[13]);
}

/// A display shader whose path does not start at the root is looked for at that path, after a
/// separator, in the very directory that [`get_config_dir`] answers, and so is a state shader;
/// there is a place to look exactly where there was an answer.
pub proof fn law_relative_shaders_lie_in_the_answered_dir(
    config: &Config,
    state: Option<Vec<u8>>,
    display: Option<Vec<u8>>,
)
    requires
        call_ensures(Config::get_state_path, (config,), state),
        call_ensures(Config::get_display_path, (config,), display),
    ensures
        !(config.state_shader_path@.len() > 0 && config.state_shader_path@[0] == 0x2f) ==> exists|
            dir: Option<Vec<u8>>,
        | #[trigger]
            call_ensures(get_config_dir, (), dir) && (state is Some <==> dir is Some) && (
            state is Some ==> state->0@ == dir->0@ + seq![0x2fu8] + config.state_shader_path@),
        !(config.display_shader_path@.len() > 0 && config.display_shader_path@[0] == 0x2f)
            ==> exists|dir: Option<Vec<u8>>| #[trigger]
            call_ensures(get_config_dir, (), dir) && (display is Some <==> dir is Some) && (
            display is Some ==> display->0@ == dir->0@ + seq![0x2fu8]
                + config.display_shader_path@),
{
    assert forall|dir: Option<Vec<u8>>| #[trigger]
        call_ensures(get_config_dir, (), dir) && dir is Some implies dir->0@.len() > 0
        && dir->0@.last() != 0x2f by {
        let base = choose|base: Seq<u8>|
            base.len() > 0 && dir->0@ == #[trigger] crate::path::joined(
                base,
                "automapaper-ng".spec_bytes(),
            );
        lemma_program_dir_ends_with_name(base);
    }
    if !(config.state_shader_path@.len() > 0 && config.state_shader_path@[0] == 0x2f) {
        let path = config.state_shader_path@;
        let dir = choose|dir: Option<Vec<u8>>| #[trigger]
            call_ensures(get_config_dir, (), dir) && match dir {
                Some(d) => state matches Some(p) && p@ == crate::path::joined(d@, path),
                None => state is None,
            };
        if state is Some {
            assert(state->0@ =~= dir->0@ + seq![0x2fu8] + path);
        }
        assert(call_ensures(get_config_dir, (), dir));
    }
    if !(config.display_shader_path@.len() > 0 && config.display_shader_path@[0] == 0x2f) {
        let path = config.display_shader_path@;
        let dir = choose|dir: Option<Vec<u8>>| #[trigger]
            call_ensures(get_config_dir, (), dir) && match dir {
                Some(d) => display matches Some(p) && p@ == crate::path::joined(d@, path),
                None => display is None,
            };
        if display is Some {
            assert(display->0@ =~= dir->0@ + seq![0x2fu8] + path);
        }
        assert(call_ensures(get_config_dir, (), dir));
    }
}

} // verus!
