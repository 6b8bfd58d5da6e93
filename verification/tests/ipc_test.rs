use automapaper::ipc::{
    after_delivery, already_running_error, client_error, connect_error, handle_client,
    response_line, socket_path, AppCommand, ClientStep, IpcRequest, IpcResponse, ServerStep,
};
use automapaper::single::Single;
use automapaper::uniform::ColorValue;

fn color() -> ColorValue {
    ColorValue::ColorRgb([Single::from_bits(1), Single::from_bits(2), Single::from_bits(3)])
}

fn start(outcomes: &[bool]) -> Vec<ServerStep> {
    let mut step = ServerStep::LookForFile;
    let mut steps = vec![step];
    for outcome in outcomes {
        step = step.next(*outcome);
        steps.push(step);
    }
    steps
}

#[test]
fn set_is_passed_on_with_name_and_value() {
    match handle_client(IpcRequest::SetUniform { name: "c1".into(), value: color() }) {
        ClientStep::Deliver { command: AppCommand::SetUniform { name, value } } => {
            assert_eq!(name, "c1");
            assert_eq!(value.into().map(|s| s.bits)[..3], [1, 2, 3]);
        }
        other => panic!("{other:?}"),
    }
}

#[test]
fn shaders_are_passed_on_by_kind() {
    let glsl = || "void main() {}".to_string();
    match handle_client(IpcRequest::DisplayShader { fragment_glsl: glsl() }) {
        ClientStep::Deliver { command: AppCommand::DisplayShader { fragment_glsl } } => {
            assert_eq!(fragment_glsl, glsl());
        }
        other => panic!("{other:?}"),
    }
    match handle_client(IpcRequest::StateShader { fragment_glsl: glsl() }) {
        ClientStep::Deliver { command: AppCommand::StateShader { fragment_glsl } } => {
            assert_eq!(fragment_glsl, glsl());
        }
        other => panic!("{other:?}"),
    }
    match handle_client(IpcRequest::InitShader { fragment_glsl: glsl() }) {
        ClientStep::Deliver { command: AppCommand::InitShader { fragment_glsl } } => {
            assert_eq!(fragment_glsl, glsl());
        }
        other => panic!("{other:?}"),
    }
}

#[test]
fn ping_is_answered_at_once() {
    assert!(matches!(
        handle_client(IpcRequest::Ping),
        ClientStep::Reply { response: IpcResponse::Pong }
    ));
}

#[test]
fn stop_is_passed_on() {
    assert!(matches!(
        handle_client(IpcRequest::Stop),
        ClientStep::Deliver { command: AppCommand::Stop }
    ));
}

#[test]
fn get_is_refused_by_name() {
    match handle_client(IpcRequest::Get { name: "c2".into() }) {
        ClientStep::Reply { response: IpcResponse::Failure { message } } => {
            assert_eq!(message, "get 'c2' is not implemented in this version");
        }
        other => panic!("{other:?}"),
    }
}

#[test]
fn done_is_said_of_delivered_commands_only() {
    assert!(matches!(
        after_delivery(true),
        ClientStep::Reply { response: IpcResponse::Done }
    ));
    assert!(matches!(after_delivery(false), ClientStep::Abort));
}

#[test]
fn responses_are_printed() {
    assert_eq!(response_line(IpcResponse::Done), Ok("ok".to_string()));
    assert_eq!(response_line(IpcResponse::Pong), Ok("pong".to_string()));
    assert_eq!(
        response_line(IpcResponse::Value { name: "c1".into(), value: "red".into() }),
        Ok("c1=red".to_string())
    );
    assert_eq!(
        response_line(IpcResponse::Failure { message: "no".into() }),
        Err("no".to_string())
    );
}

#[test]
fn socket_is_in_the_runtime_directory_if_there_is_one() {
    let temp = b"/tmp".to_vec();
    let run = b"/run/user/1000".to_vec();
    assert_eq!(socket_path(Some(&run), &temp), b"/run/user/1000/automapaper-ng.sock");
    assert_eq!(socket_path(None, &temp), b"/tmp/automapaper-ng.sock");
    assert_eq!(socket_path(Some(&Vec::new()), &temp), b"automapaper-ng.sock");
}

#[test]
fn running_daemon_keeps_its_socket() {
    let steps = start(&[true, true, true, true]);
    assert_eq!(steps[1], ServerStep::Connect);
    assert_eq!(steps[4], ServerStep::AlreadyRunning);
    assert!(!steps.contains(&ServerStep::RemoveFile));
    assert!(!steps.contains(&ServerStep::Bind));
}

#[test]
fn stale_socket_is_removed_and_bound() {
    assert_eq!(
        start(&[true, false, false, true]),
        vec![
            ServerStep::LookForFile,
            ServerStep::Connect,
            ServerStep::RemoveFile,
            ServerStep::Bind,
            ServerStep::Serve,
        ]
    );
}

#[test]
fn free_socket_is_bound_or_not() {
    assert_eq!(start(&[false, true])[1..], [ServerStep::Bind, ServerStep::Serve]);
    assert_eq!(start(&[false, false])[1..], [ServerStep::Bind, ServerStep::CannotBind]);
    assert_eq!(ServerStep::Serve.next(false), ServerStep::Serve);
}

#[test]
fn socket_messages() {
    assert_eq!(already_running_error(), "another instance is already running");
    assert_eq!(client_error("broken"), "ipc error: broken");
    assert_eq!(
        connect_error("/run/x.sock", "No such file"),
        "failed to connect to running instance at '/run/x.sock': No such file"
    );
}
