//! The daemon's socket: who may own it, what is asked over it, and what is answered.
use crate::path::join;
use crate::uniform::ColorValue;
use vstd::prelude::*;
use vstd::string::*;

verus! {

/// What a client asks.
#[derive(Debug)]
pub enum IpcRequest {
    SetUniform { name: String, value: ColorValue },
    DisplayShader { fragment_glsl: String },
    StateShader { fragment_glsl: String },
    InitShader { fragment_glsl: String },
    Get { name: String },
    Ping,
    Stop,
}

/// What a client is answered.
#[derive(Debug)]
pub enum IpcResponse {
    Done,
    Value { name: String, value: String },
    Failure { message: String },
    Pong,
}

/// What the renderer is told to do.
#[derive(Debug)]
pub enum AppCommand {
    SetUniform { name: String, value: ColorValue },
    Stop,
    DisplayShader { fragment_glsl: String },
    StateShader { fragment_glsl: String },
    InitShader { fragment_glsl: String },
}

/// What is left to do for a client.
#[derive(Debug)]
pub enum ClientStep {
    /// Hand `command` to the renderer; [`after_delivery`] says how to go on.
    Deliver { command: AppCommand },
    /// Write the response, and close the connection.
    Reply { response: IpcResponse },
    /// Close the connection without a response.
    Abort,
}

/// The command that a request is passed on as, if it is passed on.
pub open spec fn command_of(req: IpcRequest) -> Option<AppCommand> {
    match req {
        IpcRequest::SetUniform { name, value } => Some(AppCommand::SetUniform { name, value }),
        IpcRequest::DisplayShader { fragment_glsl } => Some(
            AppCommand::DisplayShader { fragment_glsl },
        ),
        IpcRequest::StateShader { fragment_glsl } => Some(
            AppCommand::StateShader { fragment_glsl },
        ),
        IpcRequest::InitShader { fragment_glsl } => Some(AppCommand::InitShader { fragment_glsl }),
        IpcRequest::Stop => Some(AppCommand::Stop),
        IpcRequest::Get { .. } | IpcRequest::Ping => None,
    }
}

/// The message that refuses to read a uniform.
pub open spec fn get_refusal(name: Seq<char>) -> Seq<char> {
    "get '"@ + name + "' is not implemented in this version"@
}

/// Whether `step` is the first thing to do about a request: pass it on where it is a command,
/// answer it at once where it is none.
pub open spec fn first_step(req: IpcRequest, step: ClientStep) -> bool {
    match command_of(req) {
        Some(command) => step == (ClientStep::Deliver { command }),
        None => match req {
            IpcRequest::Get { name } => step matches ClientStep::Reply {
                response: IpcResponse::Failure { message },
            } && message@ == get_refusal(name@),
            _ => step == (ClientStep::Reply { response: IpcResponse::Pong }),
        },
    }
}

/// The first thing to do about a request.
pub fn handle_client(req: IpcRequest) -> (res: ClientStep)
    ensures
        first_step(req, res),
{
    match req {
        IpcRequest::SetUniform { name, value } => ClientStep::Deliver {
            command: AppCommand::SetUniform { name, value },
        },
        IpcRequest::DisplayShader { fragment_glsl } => ClientStep::Deliver {
            command: AppCommand::DisplayShader { fragment_glsl },
        },
        IpcRequest::StateShader { fragment_glsl } => ClientStep::Deliver {
            command: AppCommand::StateShader { fragment_glsl },
        },
        IpcRequest::InitShader { fragment_glsl } => ClientStep::Deliver {
            command: AppCommand::InitShader { fragment_glsl },
        },
        IpcRequest::Get { name } => {
            let message = "get '".to_owned().concat(name.as_str()).concat(
                "' is not implemented in this version",
            );
            ClientStep::Reply { response: IpcResponse::Failure { message } }
        },
        IpcRequest::Ping => ClientStep::Reply { response: IpcResponse::Pong },
        IpcRequest::Stop => ClientStep::Deliver { command: AppCommand::Stop },
    }
}

/// What follows an attempt to hand a command to the renderer.
pub open spec fn delivery_step(delivered: bool) -> ClientStep {
    if delivered {
        ClientStep::Reply { response: IpcResponse::Done }
    } else {
        ClientStep::Abort
    }
}

/// Goes on after an attempt to hand a command to the renderer: a client hears `Done` only of a
/// command that has been taken.
pub fn after_delivery(delivered: bool) -> (res: ClientStep)
    ensures
        res == delivery_step(delivered),
{
    if delivered {
        ClientStep::Reply { response: IpcResponse::Done }
    } else {
        ClientStep::Abort
    }
}

/// The response a client gets in the end, if any, where handing its command to the renderer
/// goes as `delivered` says.
pub open spec fn final_response(step: ClientStep, delivered: bool) -> Option<IpcResponse> {
    match step {
        ClientStep::Deliver { .. } => match delivery_step(delivered) {
            ClientStep::Reply { response } => Some(response),
            _ => None,
        },
        ClientStep::Reply { response } => Some(response),
        ClientStep::Abort => None,
    }
}

/// A client is answered `Done` exactly where its request is a command and the renderer has taken
/// it, gets no answer exactly where the renderer has not, and is never sent a value.
pub proof fn law_done_means_delivered(req: IpcRequest, step: ClientStep, delivered: bool)
    requires
        first_step(req, step),
    ensures
        (final_response(step, delivered) == Some(IpcResponse::Done)) <==> (command_of(req) is Some
            && delivered),
        final_response(step, delivered) is None <==> (command_of(req) is Some && !delivered),
        final_response(step, delivered) matches Some(response) ==> !(response is Value),
{
}

/// No two requests are passed on as the same command.
pub proof fn law_commands_keep_requests_apart(a: IpcRequest, b: IpcRequest)
    requires
        command_of(a) is Some,
        command_of(a) == command_of(b),
    ensures
        a == b,
{
}

/// What a client does with a response: a line to print, or an error to fail with.
pub open spec fn printed(resp: IpcResponse, res: Result<String, String>) -> bool {
    match resp {
        IpcResponse::Done => res matches Ok(line) && line@ == "ok"@,
        IpcResponse::Value { name, value } => res matches Ok(line) && line@ == name@ + "="@
            + value@,
        IpcResponse::Pong => res matches Ok(line) && line@ == "pong"@,
        IpcResponse::Failure { message } => res == Err::<String, String>(message),
    }
}

/// What a client does with a response: a line to print, or an error to fail with.
pub fn response_line(resp: IpcResponse) -> (res: Result<String, String>)
    ensures
        printed(resp, res),
{
    match resp {
        IpcResponse::Done => Ok("ok".to_owned()),
        IpcResponse::Value { name, value } => Ok(name.concat("=").concat(value.as_str())),
        IpcResponse::Pong => Ok("pong".to_owned()),
        IpcResponse::Failure { message } => Err(message),
    }
}

/// What a client says that finds no daemon.
pub fn connect_error(socket: &str, error: &str) -> (res: String)
    ensures
        res@ == "failed to connect to running instance at '"@ + socket@ + "': "@ + error@,
{
    "failed to connect to running instance at '".to_owned().concat(socket).concat("': ").concat(
        error,
    )
}

/// The socket: in the directory for running programs where the environment names one, else in
/// the one for temporary files.
pub fn socket_path(runtime_dir: Option<&Vec<u8>>, temp_dir: &Vec<u8>) -> (res: Vec<u8>)
    ensures
        res@ == crate::path::joined(
            match runtime_dir {
                Some(dir) => dir@,
                None => temp_dir@,
            },
            "automapaper-ng.sock".spec_bytes(),
        ),
{
    match runtime_dir {
        Some(dir) => join(dir.as_slice(), "automapaper-ng.sock".as_bytes()),
        None => join(temp_dir.as_slice(), "automapaper-ng.sock".as_bytes()),
    }
}

/// What a starting daemon does about the socket next.
#[derive(Clone, Copy, Debug, PartialEq, Eq, Structural)]
pub enum ServerStep {
    /// See whether there is a file where the socket goes.
    LookForFile,
    /// Connect to that file.
    Connect,
    /// Remove the file; whether that works does not matter.
    RemoveFile,
    /// Bind the socket.
    Bind,
    /// Accept clients.
    Serve,
    /// Give up: another instance is running.
    AlreadyRunning,
    /// Give up: the socket cannot be bound.
    CannotBind,
}

impl ServerStep {
    /// What comes after this step, given whether it succeeded.
    pub open spec fn after(self, success: bool) -> ServerStep {
        match self {
            ServerStep::LookForFile => if success {
                ServerStep::Connect
            } else {
                ServerStep::Bind
            },
            ServerStep::Connect => if success {
                ServerStep::AlreadyRunning
            } else {
                ServerStep::RemoveFile
            },
            ServerStep::RemoveFile => ServerStep::Bind,
            ServerStep::Bind => if success {
                ServerStep::Serve
            } else {
                ServerStep::CannotBind
            },
            ServerStep::Serve | ServerStep::AlreadyRunning | ServerStep::CannotBind => self,
        }
    }

    /// What comes after this step, given whether it succeeded.
    pub fn next(self, success: bool) -> (res: ServerStep)
        ensures
            res == self.after(success),
    {
        match self {
            ServerStep::LookForFile => if success {
                ServerStep::Connect
            } else {
                ServerStep::Bind
            },
            ServerStep::Connect => if success {
                ServerStep::AlreadyRunning
            } else {
                ServerStep::RemoveFile
            },
            ServerStep::RemoveFile => ServerStep::Bind,
            ServerStep::Bind => if success {
                ServerStep::Serve
            } else {
                ServerStep::CannotBind
            },
            ServerStep::Serve => ServerStep::Serve,
            ServerStep::AlreadyRunning => ServerStep::AlreadyRunning,
            ServerStep::CannotBind => ServerStep::CannotBind,
        }
    }
}

/// What a starting daemon says when it finds another instance.
pub fn already_running_error() -> (res: String)
    ensures
        res@ == "another instance is already running"@,
{
    "another instance is already running".to_owned()
}

/// What the accepting of clients says of one that it could not serve.
pub fn client_error(error: &str) -> (res: String)
    ensures
        res@ == "ipc error: "@ + error@,
{
    "ipc error: ".to_owned().concat(error)
}

/// How the start goes: the steps taken from `step` on, where `outcomes` says how each one ends.
pub open spec fn startup(step: ServerStep, outcomes: Seq<bool>) -> Seq<ServerStep>
    decreases outcomes.len(),
{
    if outcomes.len() == 0 {
        seq![step]
    } else {
        seq![step] + startup(step.after(outcomes[0]), outcomes.drop_first())
    }
}

/// The first five steps of a start, spelled out.
proof fn lemma_startup(outcomes: Seq<bool>)
    requires
        outcomes.len() == 4,
    ensures
        ({
            let s0 = ServerStep::LookForFile;
            let s1 = s0.after(outcomes[0]);
            let s2 = s1.after(outcomes[1]);
            let s3 = s2.after(outcomes[2]);
            let s4 = s3.after(outcomes[3]);
            startup(s0, outcomes) == seq![s0, s1, s2, s3, s4]
        }),
{
    let s0 = ServerStep::LookForFile;
    let s1 = s0.after(outcomes[0]);
    let s2 = s1.after(outcomes[1]);
    let s3 = s2.after(outcomes[2]);
    let s4 = s3.after(outcomes[3]);
    let o1 = outcomes.drop_first();
    let o2 = o1.drop_first();
    let o3 = o2.drop_first();
    let o4 = o3.drop_first();
    assert(startup(s4, o4) =~= seq![s4]);
    assert(startup(s3, o3) =~= seq![s3, s4]);
    assert(startup(s2, o2) =~= seq![s2, s3, s4]);
    assert(startup(s1, o1) =~= seq![s1, s2, s3, s4]);
    assert(startup(s0, outcomes) =~= seq![s0, s1, s2, s3, s4]);
}

/// A start is over after at most four steps. A daemon that answers keeps its socket: the start
/// gives up, and neither removes the file nor binds. Otherwise it comes down to whether the
/// socket can be bound.
pub proof fn law_startup_respects_running_daemon(outcomes: Seq<bool>)
    requires
        outcomes.len() == 4,
    ensures
        ({
            let steps = startup(ServerStep::LookForFile, outcomes);
            let answered = outcomes[0] && outcomes[1];
            &&& steps.last() is Serve || steps.last() is AlreadyRunning
                || steps.last() is CannotBind
            &&& steps.last() is AlreadyRunning <==> answered
            &&& answered ==> !steps.contains(ServerStep::RemoveFile) && !steps.contains(
                ServerStep::Bind,
            )
            &&& !answered ==> steps.contains(ServerStep::Bind)
            &&& steps.contains(ServerStep::RemoveFile) <==> outcomes[0] && !outcomes[1]
        }),
{
    lemma_startup(outcomes);
    let steps = startup(ServerStep::LookForFile, outcomes);
    assert(steps.len() == 5);
    if !outcomes[0] {
        assert(steps[1] == ServerStep::Bind);
    } else if !outcomes[1] {
        assert(steps[2] == ServerStep::RemoveFile);
        assert(steps[3] == ServerStep::Bind);
    }
}

/// A request that commands is handed to the renderer as the command of its own kind, with its own
/// contents; a ping is answered at once, and so is asking for a value, with a refusal that names
/// what was asked for.
pub proof fn law_requests_keep_their_kind_and_contents(req: IpcRequest, res: ClientStep)
    requires
        call_ensures(handle_client, (req,), res),
    ensures
        req is SetUniform ==> res is Deliver && res->command is SetUniform
            && res->command->SetUniform_name == req->SetUniform_name && res->command->value
            == req->value,
        req is DisplayShader ==> res is Deliver && res->command is DisplayShader
            && res->command->DisplayShader_fragment_glsl == req->DisplayShader_fragment_glsl,
        req is StateShader ==> res is Deliver && res->command is StateShader
            && res->command->StateShader_fragment_glsl == req->StateShader_fragment_glsl,
        req is InitShader ==> res is Deliver && res->command is InitShader
            && res->command->InitShader_fragment_glsl == req->InitShader_fragment_glsl,
        req is Stop ==> res is Deliver && res->command is Stop,
        req is Ping ==> res is Reply && res->response is Pong,
        req is Get ==> res is Reply && res->response is Failure && res->response->message@
            == "get '"@ + req->Get_name@ + "' is not implemented in this version"@,
{
}

/// A client is told that its command is done where the renderer has taken it, and is told nothing
/// otherwise.
pub proof fn law_only_taken_commands_are_done(delivered: bool, res: ClientStep)
    requires
        call_ensures(after_delivery, (delivered,), res),
    ensures
        delivered ==> res is Reply && res->response is Done,
        !delivered ==> res is Abort,
{
}

/// A client fails on a refusal, with the message it was refused with, and on nothing else; a value
/// is printed after its name.
pub proof fn law_responses_are_printed_or_fail(resp: IpcResponse, res: Result<String, String>)
    requires
        call_ensures(response_line, (resp,), res),
    ensures
        res is Err <==> resp is Failure,
        resp is Failure ==> res->Err_0 == resp->message,
        resp is Done ==> res->Ok_0@ == "ok"@,
        resp is Pong ==> res->Ok_0@ == "pong"@,
        resp is Value ==> res->Ok_0@ == resp->Value_name@ + "="@ + resp->Value_value@,
{
}

/// The socket has its name in the directory for running programs wherever the environment names
/// one, and only otherwise in the one for temporary files.
pub proof fn law_socket_lies_in_runtime_dir(
    runtime_dir: Option<&Vec<u8>>,
    temp_dir: &Vec<u8>,
    res: Vec<u8>,
)
    requires
        call_ensures(socket_path, (runtime_dir, temp_dir), res),
    ensures
        runtime_dir is Some ==> crate::path::is_taken_from(
            runtime_dir->0@,
            "automapaper-ng.sock".spec_bytes(),
            res@,
        ),
        runtime_dir is None ==> crate::path::is_taken_from(
            temp_dir@,
            "automapaper-ng.sock".spec_bytes(),
            res@,
        ),
{
}

/// What a client that finds no daemon says ends with the reason, and has the socket in quotes
/// before it; what the daemon says of a client ends with the reason.
pub proof fn law_errors_tell_their_reason(
    socket: &str,
    error: &str,
    res: String,
    client: String,
)
    requires
        call_ensures(connect_error, (socket, error), res),
        call_ensures(client_error, (error,), client),
    ensures
        res@ == "failed to connect to running instance at '"@ + socket@ + "': "@ + error@,
        client@ == "ipc error: "@ + error@,
{
}

/// Whether a start can take these steps in a row, where `outcomes` says how each one but the last
/// ends.
pub open spec fn can_start(steps: Seq<ServerStep>, outcomes: Seq<bool>) -> bool {
    &&& steps.len() == outcomes.len() + 1
    &&& forall|i: int|
        0 <= i < outcomes.len() ==> call_ensures(
            ServerStep::next,
            (steps[i], #[trigger] outcomes[i]),
            steps[i + 1],
        )
}

/// A start that begins with looking for the file connects to it where there is one. Where a
/// daemon answers, the start gives up without touching the file; where none does, the file is
/// removed, and whether that works does not matter. Then, or where there was no file, the socket is
/// bound, and clients are served exactly where that works.
pub proof fn law_start_leaves_a_running_daemon_alone(steps: Seq<ServerStep>, outcomes: Seq<bool>)
    requires
        can_start(steps, outcomes),
        outcomes.len() == 4,
        steps[0] == ServerStep::LookForFile,
    ensures
        outcomes[0] ==> steps[1] == ServerStep::Connect,
        !outcomes[0] ==> steps[1] == ServerStep::Bind,
        outcomes[0] && outcomes[1] ==> steps[2] == ServerStep::AlreadyRunning && steps[4]
            == ServerStep::AlreadyRunning,
        outcomes[0] && !outcomes[1] ==> steps[2] == ServerStep::RemoveFile && steps[3]
            == ServerStep::Bind,
        !outcomes[0] ==> steps[2] == if outcomes[1] {
            ServerStep::Serve
        } else {
            ServerStep::CannotBind
        },
        outcomes[0] && !outcomes[1] ==> steps[4] == if outcomes[3] {
            ServerStep::Serve
        } else {
            ServerStep::CannotBind
        },
        !outcomes[0] ==> steps[4] == steps[2],
{
    assert(steps[1] == steps[0].after(outcomes[0]));
    assert(steps[2] == steps[1].after(outcomes[1]));
    assert(steps[3] == steps[2].after(outcomes[2]));
    assert(steps[4] == steps[3].after(outcomes[3]));
}

/// A start that is over stays so, however often it is asked how to go on.
pub proof fn law_finished_start_stays_finished(step: ServerStep, success: bool, res: ServerStep)
    requires
        call_ensures(ServerStep::next, (step, success), res),
    ensures
        step is Serve || step is AlreadyRunning || step is CannotBind <==> res == step,
{
}

} // verus!
