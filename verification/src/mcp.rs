//! Tool metadata and the command-running tool offered to the assistant.
use vstd::prelude::*;
use vstd::string::StringExecFns;

use crate::text::{dec_int, i64_to_string};

verus! {

/// Output of a command executed on the remote host.
#[derive(Debug, Clone)]
pub struct CommandOutput {
    pub stdout: String,
    pub stderr: String,
    pub exit_code: i32,
}

/// Standard output and standard error as one text: joined with a newline
/// when both are present, the non-empty one alone otherwise.
pub open spec fn spec_combined(o: CommandOutput) -> Seq<char> {
    if o.stderr@.len() == 0 {
        o.stdout@
    } else if o.stdout@.len() == 0 {
        o.stderr@
    } else {
        o.stdout@ + seq!['\n'] + o.stderr@
    }
}

impl CommandOutput {
    /// Combined stdout and stderr, for handing to the assistant.
    pub fn combined(&self) -> (out: String)
        ensures
            out@ == spec_combined(*self),
    {
        let mut out = self.stdout.clone();
        if !self.stderr.as_str().is_empty() {
            if !out.as_str().is_empty() {
                out.push('\n');
                proof {
                    assert(out@ =~= self.stdout@ + seq!['\n']);
                }
            }
            out.append(self.stderr.as_str());
        }
        out
    }

    pub fn succeeded(&self) -> (r: bool)
        ensures
            r == (self.exit_code == 0),
    {
        self.exit_code == 0
    }
}

/// An error from the remote session.
#[derive(Debug, Clone)]
pub struct SshError {
    pub message: String,
}

/// The interface tools use to act on the remote session. The surrounding
/// application implements it on top of whatever transport it has; nothing
/// is assumed of the outcomes.
pub trait SshContext {
    /// Execute a shell command and return its output.
    fn execute(&self, command: &str) -> Result<CommandOutput, SshError>;

    /// Read a remote file's full contents.
    fn read_file(&self, path: &str) -> Result<String, SshError>;

    /// Write `content` to `path` on the remote host, creating or
    /// overwriting it.
    fn write_file(&self, path: &str, content: &str) -> Result<(), SshError>;

    /// Append `content` to `path` on the remote host.
    fn append_file(&self, path: &str, content: &str) -> Result<(), SshError>;

    /// List the entries of a remote directory.
    fn list_dir(&self, path: &str) -> Result<Vec<DirEntry>, SshError>;

    /// Whether the remote path exists.
    fn path_exists(&self, path: &str) -> Result<bool, SshError>;

    /// The current working directory of the remote session.
    fn working_dir(&self) -> Result<String, SshError>;
}

/// A single entry returned by [`SshContext::list_dir`].
#[derive(Debug, Clone)]
pub struct DirEntry {
    pub name: String,
    pub kind: EntryKind,
    /// Size in bytes, when known.
    pub size: Option<u64>,
}

#[derive(Debug, Clone, PartialEq, Eq, Structural)]
pub enum EntryKind {
    File,
    Directory,
    Symlink,
    Other,
}

/// Primitive types a tool parameter can have.
#[derive(Debug, Clone, PartialEq, Eq, Structural)]
pub enum ParamType {
    Text,
    Integer,
    Boolean,
    Array,
    Object,
}

/// A single parameter in a tool's input schema.
#[derive(Debug, Clone)]
pub struct ToolParam {
    pub name: String,
    pub description: String,
    pub ty: ParamType,
    pub required: bool,
}

/// Static metadata describing a tool to the assistant.
#[derive(Debug, Clone)]
pub struct ToolDef {
    pub name: String,
    pub description: String,
    pub params: Vec<ToolParam>,
}

/// A content block inside a tool result.
#[derive(Debug, Clone)]
pub enum ToolContent {
    Text { text: String },
}

impl ToolContent {
    pub fn text(s: String) -> (r: ToolContent)
        ensures
            (r matches ToolContent::Text { text } && text == s),
    {
        ToolContent::Text { text: s }
    }
}

/// The result of invoking a tool, sent back to the assistant.
#[derive(Debug, Clone)]
pub struct ToolResult {
    /// Echoes the id of the originating call.
    pub tool_call_id: String,
    pub content: Vec<ToolContent>,
    pub is_error: bool,
}

impl ToolResult {
    pub fn ok(tool_call_id: String, text: String) -> (r: ToolResult)
        ensures
            r.tool_call_id == tool_call_id,
            !r.is_error,
            r.content@.len() == 1,
            (r.content@[0] matches ToolContent::Text { text: t } && t == text),
    {
        let mut content: Vec<ToolContent> = Vec::new();
        content.push(ToolContent::Text { text });
        ToolResult { tool_call_id, content, is_error: false }
    }

    pub fn error(tool_call_id: String, message: String) -> (r: ToolResult)
        ensures
            r.tool_call_id == tool_call_id,
            r.is_error,
            r.content@.len() == 1,
            (r.content@[0] matches ToolContent::Text { text: t } && t == message),
    {
        let mut content: Vec<ToolContent> = Vec::new();
        content.push(ToolContent::Text { text: message });
        ToolResult { tool_call_id, content, is_error: true }
    }
}

/// The text a finished command reports: its exit code, and its output when
/// there was any.
pub open spec fn result_text(exit_code: int, combined: Seq<char>) -> Seq<char> {
    let head = "exit code "@ + dec_int(exit_code);
    if combined.len() == 0 {
        head
    } else {
        head + seq!['\n'] + combined
    }
}

/// The tool that runs a shell command on the remote session.
#[derive(Debug)]
pub struct RunCommandTool;

impl RunCommandTool {
    /// The tool's schema: a required command and an optional description.
    pub fn def(&self) -> (d: ToolDef)
        ensures
            d.name@ == "run_command"@,
            d.params@.len() == 2,
            d.params@[0].name@ == "command"@,
            d.params@[0].required,
            d.params@[0].ty == ParamType::Text,
            d.params@[1].name@ == "description"@,
            !d.params@[1].required,
            d.params@[1].ty == ParamType::Text,
    {
        let mut params: Vec<ToolParam> = Vec::new();
        params.push(ToolParam {
            name: String::from_str("command"),
            description: String::from_str("The shell command to execute."),
            ty: ParamType::Text,
            required: true,
        });
        params.push(ToolParam {
            name: String::from_str("description"),
            description: String::from_str(
                "One-sentence explanation of what this command does (shown to the user in the confirmation dialog).",
            ),
            ty: ParamType::Text,
            required: false,
        });
        ToolDef {
            name: String::from_str("run_command"),
            description: String::from_str(
                "Execute a shell command on the remote SSH session and return its output.",
            ),
            params,
        }
    }

    /// Turn a finished command into the result the assistant sees: the
    /// exit code with the output, an error result exactly when the exit
    /// code is not zero.
    pub fn render_result(&self, id: &str, output: &CommandOutput) -> (r: ToolResult)
        ensures
            r.tool_call_id@ == id@,
            r.is_error == (output.exit_code != 0),
            r.content@.len() == 1,
            (r.content@[0] matches ToolContent::Text { text: t } && t@ == result_text(
                output.exit_code as int,
                spec_combined(*output),
            )),
    {
        let combined = output.combined();
        let mut text = String::from_str("exit code ");
        let digits = i64_to_string(output.exit_code as i64);
        text.append(digits.as_str());
        if !combined.as_str().is_empty() {
            text.push('\n');
            text.append(combined.as_str());
            proof {
                assert(text@ =~= result_text(output.exit_code as int, spec_combined(*output)));
            }
        }
        if output.succeeded() {
            ToolResult::ok(String::from_str(id), text)
        } else {
            ToolResult::error(String::from_str(id), text)
        }
    }

    /// Run the command through the session and report its outcome; the
    /// session's own failure is passed through as the error.
    pub fn call<C: SshContext>(&self, id: &str, command: &str, ctx: &C) -> (r: Result<
        ToolResult,
        SshError,
    >)
        ensures
            (r matches Ok(tr) ==> tr.tool_call_id@ == id@ && tr.content@.len() == 1),
    {
        match ctx.execute(command) {
            Ok(output) => Ok(self.render_result(id, &output)),
            Err(e) => Err(e),
        }
    }
}

} // verus!
