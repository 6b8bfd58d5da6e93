use automapaper::cli::{plan, shader_request, Command, Failure, Plan, ShaderType};
use automapaper::config::Config;
use automapaper::ipc::{handle_client, response_line, AppCommand, ClientStep, IpcRequest};
use automapaper::renderer::App;
use automapaper::uniform::ColorError;

#[test]
fn no_command_runs_the_daemon() {
    assert!(matches!(plan(None), Plan::RunDaemon));
}

#[test]
fn set_sends_the_parsed_colour() {
    let command = Command::SetUniform { name: "c3".into(), value: "#0000ff80".into() };
    match plan(Some(command)) {
        Plan::Send { request: IpcRequest::SetUniform { name, value } } => {
            assert_eq!(name, "c3");
            let rgba = value.into().map(|s| f32::from_bits(s.bits));
            assert_eq!(rgba, [0.0, 0.0, 1.0, 128.0 / 255.0]);
        }
        other => panic!("{other:?}"),
    }
}

#[test]
fn set_fails_on_what_is_no_colour() {
    let command = Command::SetUniform { name: "c3".into(), value: "blue".into() };
    match plan(Some(command)) {
        Plan::Fail { failure } => {
            assert_eq!(failure.exit_code(), 2);
            assert_eq!(
                failure.message(),
                "failed to parse value: expected #RRGGBB or #RRGGBBAA"
            );
        }
        other => panic!("{other:?}"),
    }
}

#[test]
fn shader_commands_name_a_file_and_a_kind() {
    match plan(Some(Command::DisplayShader { path: b"d.glsl".to_vec() })) {
        Plan::SendShader { path, shader_type } => {
            assert_eq!(path, b"d.glsl");
            assert_eq!(shader_type, ShaderType::Display);
        }
        other => panic!("{other:?}"),
    }
    match plan(Some(Command::StateShader { path: b"s.glsl".to_vec() })) {
        Plan::SendShader { path, shader_type } => {
            assert_eq!(path, b"s.glsl");
            assert_eq!(shader_type, ShaderType::State);
        }
        other => panic!("{other:?}"),
    }
}

#[test]
fn shader_requests_carry_the_source() {
    match shader_request(ShaderType::Display, "d".into()) {
        IpcRequest::DisplayShader { fragment_glsl } => assert_eq!(fragment_glsl, "d"),
        other => panic!("{other:?}"),
    }
    match shader_request(ShaderType::State, "s".into()) {
        IpcRequest::StateShader { fragment_glsl } => assert_eq!(fragment_glsl, "s"),
        other => panic!("{other:?}"),
    }
}

#[test]
fn get_and_stop_are_sent() {
    match plan(Some(Command::Get { name: "c1".into() })) {
        Plan::Send { request: IpcRequest::Get { name } } => assert_eq!(name, "c1"),
        other => panic!("{other:?}"),
    }
    match plan(Some(Command::Stop)) {
        Plan::Send { request } => assert!(matches!(
            handle_client(request),
            ClientStep::Deliver { command: AppCommand::Stop }
        )),
        other => panic!("{other:?}"),
    }
}

#[test]
fn failures_have_their_codes_and_messages() {
    let cases = vec![
        (
            Failure::ServerStart { error: "in use".into() },
            1,
            "failed to start IPC server: in use",
        ),
        (Failure::Request { error: "refused".into() }, 1, "refused"),
        (
            Failure::BadValue { reason: ColorError::InvalidDigit },
            2,
            "failed to parse value: invalid digit found in string",
        ),
        (
            Failure::ReadShader { path: "a.glsl".into(), error: "gone".into() },
            2,
            "failed to read shader 'a.glsl': gone",
        ),
        (
            Failure::MissingPath { quoted: "\"/x\"".into() },
            3,
            "path \"/x\" does not exist",
        ),
    ];
    for (failure, code, message) in cases {
        assert_eq!(failure.exit_code(), code);
        assert_eq!(failure.message(), message);
    }
}

#[test]
fn colour_set_on_the_command_line_becomes_the_target() {
    let command = Command::SetUniform { name: "c2".into(), value: "#ff0000".into() };
    let Plan::Send { request } = plan(Some(command)) else {
        panic!("nothing is sent");
    };
    let ClientStep::Deliver { command } = handle_client(request) else {
        panic!("nothing is passed on");
    };
    let mut app: App<()> = App::new(&Config::default(), 0);
    assert_eq!(app.handle_command(&command), None);
    let c2 = app.target_uniforms.c2.map(|s| f32::from_bits(s.bits));
    assert_eq!(c2, [1.0, 0.0, 0.0, 1.0]);
    assert!(!app.exit);
}

#[test]
fn get_on_the_command_line_is_refused() {
    let Plan::Send { request } = plan(Some(Command::Get { name: "c1".into() })) else {
        panic!("nothing is sent");
    };
    let ClientStep::Reply { response } = handle_client(request) else {
        panic!("no answer");
    };
    let failure = Failure::Request { error: response_line(response).unwrap_err() };
    assert_eq!(failure.message(), "get 'c1' is not implemented in this version");
    assert_eq!(failure.exit_code(), 1);
}
