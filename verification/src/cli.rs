//! What the command line asks for, and how the program ends where it cannot be done.
use crate::ipc::IpcRequest;
use crate::uniform::{parse_uniform_value, ColorError, ColorValue};
use vstd::prelude::*;
use vstd::string::*;

verus! {

/// What the user asks of a running daemon.
#[derive(Debug)]
pub enum Command {
    SetUniform { name: String, value: String },
    DisplayShader { path: Vec<u8> },
    StateShader { path: Vec<u8> },
    Get { name: String },
    Stop,
}

/// Which shader a file holds.
#[derive(Clone, Copy, Debug, PartialEq, Eq, Structural)]
pub enum ShaderType {
    Display,
    State,
}

/// What the program cannot go on after.
#[derive(Debug)]
pub enum Failure {
    /// The socket is not to be had.
    ServerStart { error: String },
    /// The value to set is no colour.
    BadValue { reason: ColorError },
    /// The daemon cannot be asked, or refuses.
    Request { error: String },
    /// A shader cannot be read.
    ReadShader { path: String, error: String },
    /// A path of the configuration leads nowhere. The path comes quoted.
    MissingPath { quoted: String },
}

impl Failure {
    /// The exit code: 1 for what went wrong with the daemon, 2 for what is wrong with an
    /// argument, 3 for what is wrong with the configuration.
    pub open spec fn code(&self) -> i32 {
        match self {
            Failure::ServerStart { .. } | Failure::Request { .. } => 1,
            Failure::BadValue { .. } | Failure::ReadShader { .. } => 2,
            Failure::MissingPath { .. } => 3,
        }
    }

    /// What the user is told.
    pub open spec fn text(&self) -> Seq<char> {
        match self {
            Failure::ServerStart { error } => "failed to start IPC server: "@ + error@,
            Failure::BadValue { reason } => "failed to parse value: "@ + reason.text(),
            Failure::Request { error } => error@,
            Failure::ReadShader { path, error } => "failed to read shader '"@ + path@ + "': "@
                + error@,
            Failure::MissingPath { quoted } => "path "@ + quoted@ + " does not exist"@,
        }
    }

    /// The exit code.
    pub fn exit_code(&self) -> (res: i32)
        ensures
            res == self.code(),
    {
        match self {
            Failure::ServerStart { .. } | Failure::Request { .. } => 1,
            Failure::BadValue { .. } | Failure::ReadShader { .. } => 2,
            Failure::MissingPath { .. } => 3,
        }
    }

    /// What the user is told.
    pub fn message(&self) -> (res: String)
        ensures
            res@ == self.text(),
    {
        match self {
            Failure::ServerStart { error } => "failed to start IPC server: ".to_owned().concat(
                error.as_str(),
            ),
            Failure::BadValue { reason } => {
                let text = reason.message();
                "failed to parse value: ".to_owned().concat(text.as_str())
            },
            Failure::Request { error } => error.as_str().to_owned(),
            Failure::ReadShader { path, error } => "failed to read shader '".to_owned().concat(
                path.as_str(),
            ).concat("': ").concat(error.as_str()),
            Failure::MissingPath { quoted } => "path ".to_owned().concat(quoted.as_str()).concat(
                " does not exist",
            ),
        }
    }
}

/// What the program does.
#[derive(Debug)]
pub enum Plan {
    /// Become the daemon.
    RunDaemon,
    /// Ask the daemon, and print its answer.
    Send { request: IpcRequest },
    /// Read a shader from a file, and ask the daemon to use it.
    SendShader { path: Vec<u8>, shader_type: ShaderType },
    /// End.
    Fail { failure: Failure },
}

/// Whether `res` is what the program does for a command line.
pub open spec fn planned(command: Option<Command>, res: Plan) -> bool {
    match command {
        None => res == Plan::RunDaemon,
        Some(Command::SetUniform { name, value }) => exists|parsed: Result<ColorValue, ColorError>|
            {
                &&& #[trigger] crate::uniform::reads_as(
                    crate::uniform::digits(vstd::utf8::encode_utf8(value@)),
                    parsed,
                )
                &&& match parsed {
                    Ok(color) => res == (Plan::Send {
                        request: IpcRequest::SetUniform { name, value: color },
                    }),
                    Err(error) => res == (Plan::Fail { failure: Failure::BadValue { reason: error } }),
                }
            },
        Some(Command::DisplayShader { path }) => res == (Plan::SendShader {
            path,
            shader_type: ShaderType::Display,
        }),
        Some(Command::StateShader { path }) => res == (Plan::SendShader {
            path,
            shader_type: ShaderType::State,
        }),
        Some(Command::Get { name }) => res == (Plan::Send { request: IpcRequest::Get { name } }),
        Some(Command::Stop) => res == (Plan::Send { request: IpcRequest::Stop }),
    }
}

/// What the program does for a command line. Without a command it becomes the daemon.
pub fn plan(command: Option<Command>) -> (res: Plan)
    requires
        command matches Some(Command::SetUniform { value, .. })
            ==> !crate::uniform::splits_character(
            crate::uniform::digits(vstd::utf8::encode_utf8(value@)),
        ),
    ensures
        planned(command, res),
{
    match command {
        None => Plan::RunDaemon,
        Some(Command::SetUniform { name, value }) => match parse_uniform_value(value.as_str()) {
            Ok(color) => {
                proof {
                    assert(crate::uniform::reads_as(
                        crate::uniform::digits(vstd::utf8::encode_utf8(value@)),
                        Ok(color),
                    ));
                }
                Plan::Send { request: IpcRequest::SetUniform { name, value: color } }
            },
            Err(error) => {
                proof {
                    assert(crate::uniform::reads_as(
                        crate::uniform::digits(vstd::utf8::encode_utf8(value@)),
                        Err(error),
                    ));
                }
                Plan::Fail { failure: Failure::BadValue { reason: error } }
            },
        },
        Some(Command::DisplayShader { path }) => Plan::SendShader {
            path,
            shader_type: ShaderType::Display,
        },
        Some(Command::StateShader { path }) => Plan::SendShader {
            path,
            shader_type: ShaderType::State,
        },
        Some(Command::Get { name }) => Plan::Send { request: IpcRequest::Get { name } },
        Some(Command::Stop) => Plan::Send { request: IpcRequest::Stop },
    }
}

/// The request that brings a shader to the daemon.
pub fn shader_request(shader_type: ShaderType, fragment_glsl: String) -> (res: IpcRequest)
    ensures
        res == match shader_type {
            ShaderType::Display => IpcRequest::DisplayShader { fragment_glsl },
            ShaderType::State => IpcRequest::StateShader { fragment_glsl },
        },
{
    match shader_type {
        ShaderType::Display => IpcRequest::DisplayShader { fragment_glsl },
        ShaderType::State => IpcRequest::StateShader { fragment_glsl },
    }
}

/// Setting a colour on the command line makes that colour the one that the daemon heads for:
/// the request that the program sends is passed on as a command, and the command does it.
pub proof fn law_set_color_becomes_target(
    name: String,
    value: String,
    res: Plan,
    controls: crate::renderer::Controls,
    color: ColorValue,
)
    requires
        crate::renderer::color_slot(name@) is Some,
        controls.target.len() == 4,
        planned(Some(Command::SetUniform { name, value }), res),
        res matches Plan::Send { request } && request is SetUniform && request->value == color,
    ensures
        crate::uniform::reads_as(
            crate::uniform::digits(vstd::utf8::encode_utf8(value@)),
            Ok(color),
        ),
        ({
            let command = crate::ipc::command_of(res->request)->0;
            let after = crate::renderer::step(controls, command);
            &&& crate::ipc::command_of(res->request) is Some
            &&& !crate::renderer::brings_shader(command)
            &&& after.target[crate::renderer::color_slot(name@)->0] == color.rgba()
            &&& after.exit == controls.exit
        }),
{
}

/// A value that is no colour is never sent: the program ends with code 2.
pub proof fn law_bad_value_is_never_sent(name: String, value: String, res: Plan, error: ColorError)
    requires
        planned(Some(Command::SetUniform { name, value }), res),
        crate::uniform::reads_as(
            crate::uniform::digits(vstd::utf8::encode_utf8(value@)),
            Err(error),
        ),
    ensures
        res == (Plan::Fail { failure: Failure::BadValue { reason: error } }),
        res->failure.code() == 2,
{
}

/// Asking for the value of a uniform is refused by name, and the program ends with code 1.
pub proof fn law_get_is_refused(
    name: String,
    res: Plan,
    step: crate::ipc::ClientStep,
    line: Result<String, String>,
)
    requires
        planned(Some(Command::Get { name }), res),
        crate::ipc::first_step(res->request, step),
        crate::ipc::printed(step->response, line),
    ensures
        res is Send,
        step is Reply,
        line is Err,
        ({
            let failure = Failure::Request { error: line->Err_0 };
            failure.text() == crate::ipc::get_refusal(name@) && failure.code() == 1
        }),
{
}

/// Asking the daemon to stop makes it end.
pub proof fn law_stop_reaches_renderer(res: Plan, controls: crate::renderer::Controls)
    requires
        planned(Some(Command::Stop), res),
    ensures
        ({
            let command = crate::ipc::command_of(res->request)->0;
            &&& res is Send
            &&& crate::ipc::command_of(res->request) is Some
            &&& !crate::renderer::brings_shader(command)
            &&& crate::renderer::step(controls, command).exit
        }),
{
}

/// Each command on the command line leads to the request of its own kind with its own contents,
/// each shader to the file of its own path, and no command at all to the daemon.
pub proof fn law_commands_lead_to_their_requests(command: Option<Command>, res: Plan)
    requires
        call_ensures(plan, (command,), res),
    ensures
        res is RunDaemon <==> command is None,
        command matches Some(Command::Get { name }) ==> res is Send && res->request is Get
            && res->request->Get_name == name,
        command matches Some(Command::Stop) ==> res is Send && res->request is Stop,
        command matches Some(Command::DisplayShader { path }) ==> res is SendShader && res->path
            == path && res->shader_type == ShaderType::Display,
        command matches Some(Command::StateShader { path }) ==> res is SendShader && res->path
            == path && res->shader_type == ShaderType::State,
        command matches Some(Command::SetUniform { name, .. }) ==> (res is Send && res->request
            is SetUniform && res->request->SetUniform_name == name) || (res is Fail && res->failure
            is BadValue),
{
}

/// Setting a uniform sends, under its name, the colour of the bytes that the value writes.
pub proof fn law_set_sends_the_written_color(
    name: String,
    value: String,
    res: Plan,
    text: Seq<u8>,
    bytes: Seq<u8>,
)
    requires
        call_ensures(plan, (Some(Command::SetUniform { name, value }),), res),
        crate::uniform::argument_of(vstd::utf8::encode_utf8(value@), text),
        bytes.len() == 3 || bytes.len() == 4,
        crate::uniform::writes(text, bytes),
    ensures
        res is Send,
        res->request is SetUniform,
        res->request->SetUniform_name == name,
        crate::uniform::is_color_of(bytes, Ok(res->request->value)),
{
    let parsed = choose|parsed: Result<ColorValue, ColorError>|
        {
            &&& #[trigger] crate::uniform::reads_as(
                crate::uniform::digits(vstd::utf8::encode_utf8(value@)),
                parsed,
            )
            &&& match parsed {
                Ok(color) => res == (Plan::Send {
                    request: IpcRequest::SetUniform { name, value: color },
                }),
                Err(error) => res == (Plan::Fail { failure: Failure::BadValue { reason: error } }),
            }
        };
    assert(crate::uniform::digits(vstd::utf8::encode_utf8(value@)) =~= text);
    crate::uniform::lemma_reading(text, parsed);
}

/// A value that is no colour ends the program, for the reason that is wrong with it: its length, or
/// two characters in a row that write no byte.
pub proof fn law_set_fails_for_what_is_wrong(
    name: String,
    value: String,
    res: Plan,
    text: Seq<u8>,
)
    requires
        call_ensures(plan, (Some(Command::SetUniform { name, value }),), res),
        crate::uniform::argument_of(vstd::utf8::encode_utf8(value@), text),
    ensures
        text.len() != 6 && text.len() != 8 ==> res == (Plan::Fail {
            failure: Failure::BadValue { reason: ColorError::WrongLength },
        }),
        (text.len() == 6 || text.len() == 8) && (exists|k: int|
            0 <= k < text.len() / 2 && #[trigger] crate::uniform::writes_nothing(
                text[2 * k],
                text[2 * k + 1],
            )) ==> res == (Plan::Fail {
            failure: Failure::BadValue { reason: ColorError::InvalidDigit },
        }),
{
    let parsed = choose|parsed: Result<ColorValue, ColorError>|
        {
            &&& #[trigger] crate::uniform::reads_as(
                crate::uniform::digits(vstd::utf8::encode_utf8(value@)),
                parsed,
            )
            &&& match parsed {
                Ok(color) => res == (Plan::Send {
                    request: IpcRequest::SetUniform { name, value: color },
                }),
                Err(error) => res == (Plan::Fail { failure: Failure::BadValue { reason: error } }),
            }
        };
    assert(crate::uniform::digits(vstd::utf8::encode_utf8(value@)) =~= text);
    crate::uniform::lemma_reading(text, parsed);
}

/// A shader that was read goes to the daemon whole, as the kind of shader that it is.
pub proof fn law_shader_is_sent_as_its_kind(
    shader_type: ShaderType,
    fragment_glsl: String,
    res: IpcRequest,
)
    requires
        call_ensures(shader_request, (shader_type, fragment_glsl), res),
    ensures
        shader_type == ShaderType::Display ==> res is DisplayShader
            && res->DisplayShader_fragment_glsl == fragment_glsl,
        shader_type == ShaderType::State ==> res is StateShader && res->StateShader_fragment_glsl
            == fragment_glsl,
{
}

/// The program never ends well where something failed. What is wrong with an argument is told from
/// what is wrong with the daemon, and both from what is wrong with the configuration.
pub proof fn law_exit_codes_tell_failures_apart(failure: &Failure, res: i32)
    requires
        call_ensures(Failure::exit_code, (failure,), res),
    ensures
        res == 1 <==> *failure is ServerStart || *failure is Request,
        res == 2 <==> *failure is BadValue || *failure is ReadShader,
        res == 3 <==> *failure is MissingPath,
{
}

/// The message of a failure holds what it was about: the reason at its end, and a file or a path
/// where there is one.
pub proof fn law_messages_tell_the_reason(failure: &Failure, res: String)
    requires
        call_ensures(Failure::message, (failure,), res),
    ensures
        failure matches Failure::ServerStart { error } ==> res@ == "failed to start IPC server: "@
            + error@,
        failure matches Failure::BadValue { reason } ==> res@ == "failed to parse value: "@ + (
        match reason {
            ColorError::InvalidDigit => "invalid digit found in string"@,
            ColorError::WrongLength => "expected #RRGGBB or #RRGGBBAA"@,
        }),
        failure matches Failure::Request { error } ==> res@ == error@,
        failure matches Failure::ReadShader { path, error } ==> res@ == "failed to read shader '"@
            + path@ + "': "@ + error@,
        failure matches Failure::MissingPath { quoted } ==> res@ == "path "@ + quoted@
            + " does not exist"@,
{
}

/// What is set on the command line of one program is what the daemon heads for: the colour that
/// the value writes, under the name that was given, and under no other.
pub proof fn law_set_reaches_the_renderer<H>(
    name: String,
    value: String,
    planned: Plan,
    step: crate::ipc::ClientStep,
    app: &mut crate::renderer::App<H>,
    told: Option<String>,
    other: Seq<char>,
)
    requires
        call_ensures(plan, (Some(Command::SetUniform { name, value }),), planned),
        planned is Send,
        call_ensures(crate::ipc::handle_client, (planned->request,), step),
        call_ensures(crate::renderer::App::<H>::handle_command, (app, &step->command), told),
        crate::renderer::color_named(app.target_uniforms, name@) is Some,
        other != name@,
    ensures
        step is Deliver,
        crate::uniform::shows(
            planned->request->value,
            crate::renderer::color_named(final(app).target_uniforms, name@)->0,
        ),
        crate::renderer::color_named(final(app).target_uniforms, other)
            == crate::renderer::color_named(old(app).target_uniforms, other),
        final(app).exit == old(app).exit,
        told is None,
{
    law_commands_lead_to_their_requests(Some(Command::SetUniform { name, value }), planned);
    crate::ipc::law_requests_keep_their_kind_and_contents(planned->request, step);
    let command = step->command;
    crate::renderer::law_command_is_followed(app, &command, told);
    let cmds = seq![command];
    assert(cmds[0] is SetUniform && cmds[0]->SetUniform_name == name);
    assert(!crate::renderer::sets_name(cmds[0], other));
    assert(forall|i: int| 0 <= i < cmds.len() ==> !(#[trigger] cmds[i] is Stop));
    let messages = match told {
        Some(text) => seq![text],
        None => Seq::empty(),
    };
    reveal_with_fuel(Seq::filter, 3);
    assert(cmds.drop_last() =~= Seq::empty());
    assert(!crate::renderer::sets_unknown(command));
    assert(cmds.filter(|c: crate::ipc::AppCommand| crate::renderer::sets_unknown(c)).len() == 0);
    assert(messages.len() == 0);
}

} // verus!
