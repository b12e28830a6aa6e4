//! The process steps: environment variables, running commands, and the
//! captured output. Spawning happens at the program's edge; here stand the
//! argument handling, the stored state, and the exact failure messages.

use vstd::prelude::*;

use crate::civilization::{Civilization, CommandOutput};
use crate::errors::{ToolproofStepError, ToolproofTestFailure};
use crate::json::{JsonValue, JsonView};
use crate::text::extend_str;

verus! {

/// `I have the environment variable {name} set to {value}`.
pub struct EnvVar;

impl EnvVar {
    /// The pattern this instruction registers under.
    pub fn segments(&self) -> &'static str {
        "I have the environment variable {name} set to {value}"
    }

    /// Store the variable into the sandbox's environment map; it reaches
    /// child processes only, never the runner's own environment.
    pub fn run(&self, name: String, value: String, civ: &mut Civilization) -> (r: Result<
        (),
        ToolproofStepError,
    >)
        ensures
            r is Ok,
            crate::civilization::env_lookup(final(civ).env_vars@, name@) == Option::Some(value@),
            forall|other: Seq<char>|
                other != name@ ==> #[trigger] crate::civilization::env_lookup(
                    final(civ).env_vars@,
                    other,
                ) == crate::civilization::env_lookup(old(civ).env_vars@, other),
            final(civ).tmp_dir == old(civ).tmp_dir,
            final(civ).assigned_server_port == old(civ).assigned_server_port,
            final(civ).last_command_output == old(civ).last_command_output,
            final(civ).window == old(civ).window,
            final(civ).threads@ == old(civ).threads@,
            final(civ).handles@ == old(civ).handles@,
    {
        civ.set_env(name, value);
        Result::Ok(())
    }
}

/// The part of a command failure message that lists the captured streams.
pub open spec fn streams_msg(output: Option<CommandOutput>) -> Seq<char> {
    match output {
        Option::Some(o) => "\nstdout:\n---\n"@ + o.stdout@ + "\n---\nstderr:\n---\n"@ + o.stderr@
            + "\n---"@,
        Option::None => "\nstdout:\n---\n<empty>\n---\nstderr:\n---\n<empty>\n---"@,
    }
}

fn push_streams_msg(out: &mut Vec<char>, civ: &Civilization)
    ensures
        final(out)@ == old(out)@ + streams_msg(civ.last_command_output),
{
    match &civ.last_command_output {
        Option::Some(o) => {
            extend_str(out, "\nstdout:\n---\n");
            extend_str(out, o.stdout.as_str());
            extend_str(out, "\n---\nstderr:\n---\n");
            extend_str(out, o.stderr.as_str());
            extend_str(out, "\n---");
            proof {
                assert(out@ =~= old(out)@ + streams_msg(civ.last_command_output));
            }
        },
        Option::None => {
            extend_str(out, "\nstdout:\n---\n<empty>\n---\nstderr:\n---\n<empty>\n---");
            proof {
                assert(out@ =~= old(out)@ + streams_msg(civ.last_command_output));
            }
        },
    }
}

/// `I run {command}`.
pub struct Run;

impl Run {
    /// The pattern this instruction registers under.
    pub fn segments(&self) -> &'static str {
        "I run {command}"
    }

    /// Judge a finished command: it must have exited successfully, else the
    /// step fails with the command, its status and both captured streams.
    pub fn conclude(
        &self,
        command: &str,
        status: &str,
        exit_success: bool,
        civ: &Civilization,
    ) -> (r: Result<(), ToolproofStepError>)
        ensures
            exit_success <==> r is Ok,
            r matches Result::Err(e) ==> e matches ToolproofStepError::Assertion(
                ToolproofTestFailure::Custom { msg },
            ) && msg@ == "Failed to run command ("@ + status@ + ")\nCommand: "@ + command@
                + streams_msg(civ.last_command_output),
    {
        if exit_success {
            return Result::Ok(());
        }
        let mut msg: Vec<char> = Vec::new();
        extend_str(&mut msg, "Failed to run command (");
        extend_str(&mut msg, status);
        extend_str(&mut msg, ")\nCommand: ");
        extend_str(&mut msg, command);
        push_streams_msg(&mut msg, civ);
        proof {
            assert(msg@ =~= "Failed to run command ("@ + status@ + ")\nCommand: "@ + command@
                + streams_msg(civ.last_command_output));
        }
        Result::Err(
            ToolproofStepError::Assertion(
                ToolproofTestFailure::Custom { msg: crate::text::string_from_chars(&msg) },
            ),
        )
    }
}

/// `I run {command} and expect it to fail`.
pub struct FailingRun;

impl FailingRun {
    /// The pattern this instruction registers under.
    pub fn segments(&self) -> &'static str {
        "I run {command} and expect it to fail"
    }

    /// Judge a finished command: it must have exited unsuccessfully, else the
    /// step fails with the command, its status and both captured streams.
    pub fn conclude(
        &self,
        command: &str,
        status: &str,
        exit_success: bool,
        civ: &Civilization,
    ) -> (r: Result<(), ToolproofStepError>)
        ensures
            !exit_success <==> r is Ok,
            r matches Result::Err(e) ==> e matches ToolproofStepError::Assertion(
                ToolproofTestFailure::Custom { msg },
            ) && msg@ == "Command ran successfully, but should not have ("@ + status@
                + ")\nCommand: "@ + command@ + streams_msg(civ.last_command_output),
    {
        if !exit_success {
            return Result::Ok(());
        }
        let mut msg: Vec<char> = Vec::new();
        extend_str(&mut msg, "Command ran successfully, but should not have (");
        extend_str(&mut msg, status);
        extend_str(&mut msg, ")\nCommand: ");
        extend_str(&mut msg, command);
        push_streams_msg(&mut msg, civ);
        proof {
            assert(msg@ =~= "Command ran successfully, but should not have ("@ + status@
                + ")\nCommand: "@ + command@ + streams_msg(civ.last_command_output));
        }
        Result::Err(
            ToolproofStepError::Assertion(
                ToolproofTestFailure::Custom { msg: crate::text::string_from_chars(&msg) },
            ),
        )
    }
}

/// `stdout`.
pub struct StdOut;

impl StdOut {
    /// The pattern this retriever registers under.
    pub fn segments(&self) -> &'static str {
        "stdout"
    }

    /// The standard output of the last command, or a failure when no command
    /// has run.
    pub fn run(&self, civ: &Civilization) -> (r: Result<JsonValue, ToolproofStepError>)
        ensures
            match civ.last_command_output {
                Option::Some(o) => r matches Result::Ok(v) && v@ == JsonView::Str(o.stdout@),
                Option::None => r matches Result::Err(ToolproofStepError::Assertion(
                    ToolproofTestFailure::Custom { msg },
                )) && msg@ == "no stdout exists"@,
            },
    {
        match &civ.last_command_output {
            Option::Some(o) => Result::Ok(JsonValue::Str(o.stdout.clone())),
            Option::None => {
                let mut msg: Vec<char> = Vec::new();
                extend_str(&mut msg, "no stdout exists");
                proof {
                    assert(msg@ =~= "no stdout exists"@);
                }
                Result::Err(
                    ToolproofStepError::Assertion(
                        ToolproofTestFailure::Custom { msg: crate::text::string_from_chars(&msg) },
                    ),
                )
            },
        }
    }
}

/// `stderr`.
pub struct StdErr;

impl StdErr {
    /// The pattern this retriever registers under.
    pub fn segments(&self) -> &'static str {
        "stderr"
    }

    /// The standard error of the last command, or a failure when no command
    /// has run.
    pub fn run(&self, civ: &Civilization) -> (r: Result<JsonValue, ToolproofStepError>)
        ensures
            match civ.last_command_output {
                Option::Some(o) => r matches Result::Ok(v) && v@ == JsonView::Str(o.stderr@),
                Option::None => r matches Result::Err(ToolproofStepError::Assertion(
                    ToolproofTestFailure::Custom { msg },
                )) && msg@ == "no stderr exists"@,
            },
    {
        match &civ.last_command_output {
            Option::Some(o) => Result::Ok(JsonValue::Str(o.stderr.clone())),
            Option::None => {
                let mut msg: Vec<char> = Vec::new();
                extend_str(&mut msg, "no stderr exists");
                proof {
                    assert(msg@ =~= "no stderr exists"@);
                }
                Result::Err(
                    ToolproofStepError::Assertion(
                        ToolproofTestFailure::Custom { msg: crate::text::string_from_chars(&msg) },
                    ),
                )
            },
        }
    }
}

/// The command text as the child shell receives it: the host path separator
/// replaced by a forward slash, so tests stay portable. On systems whose
/// separator is already `/` the command is unchanged.
pub fn portable_command(command: &str, host_separator: char) -> (r: String)
    ensures
        r@ == crate::text::replaced(command@, seq![host_separator], seq!['/']),
{
    let cs = crate::text::chars_of(command);
    let mut pat: Vec<char> = Vec::new();
    pat.push(host_separator);
    let mut to: Vec<char> = Vec::new();
    to.push('/');
    proof {
        assert(pat@ =~= seq![host_separator]);
        assert(to@ =~= seq!['/']);
    }
    let out = crate::text::replace_chars(&cs, &pat, &to);
    crate::text::string_from_chars(&out)
}

/// The text a captured stream is stored as: the ANSI-stripped bytes decoded
/// as UTF-8 when they are valid, the `failed utf8` sentinel when they are not.
pub open spec fn spec_captured(data: Seq<u8>) -> Seq<char> {
    if crate::civilization::utf8_valid(crate::civilization::ansi_stripped(data)) {
        crate::civilization::utf8_decoded(crate::civilization::ansi_stripped(data))
    } else {
        crate::civilization::failed_utf8_chars()
    }
}

/// Record a finished command's captured streams as the last output.
pub fn record_command_output(civ: &mut Civilization, stdout: &Vec<u8>, stderr: &Vec<u8>)
    ensures
        final(civ).last_command_output matches Option::Some(o) && o.stdout@ == spec_captured(
            stdout@,
        ) && o.stderr@ == spec_captured(stderr@),
        final(civ).tmp_dir == old(civ).tmp_dir,
        final(civ).assigned_server_port == old(civ).assigned_server_port,
        final(civ).window == old(civ).window,
        final(civ).threads@ == old(civ).threads@,
        final(civ).handles@ == old(civ).handles@,
        final(civ).env_vars@ == old(civ).env_vars@,
{
    let out = crate::civilization::decode_captured_stream(stdout);
    let err = crate::civilization::decode_captured_stream(stderr);
    civ.last_command_output = Option::Some(CommandOutput { stdout: out, stderr: err });
}

} // verus!
