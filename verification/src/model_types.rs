//! Model-side types: providers, sessions, run requests and the exact
//! command line built for the assistant CLI.

use vstd::prelude::*;

use crate::text::chars_string;
use crate::text::push_all;
use crate::text::str_chars;

verus! {

/// The provider backend of a session.
#[derive(Clone, Copy, Debug, PartialEq, Eq, Hash, Structural)]
pub enum ProviderKind {
    ClaudeCli,
    AnthropicHttp,
    OpenAi,
    Gemini,
    Local,
}

/// A provider-specific session reference, used for resume.
#[derive(Clone, Debug, PartialEq, Eq, Hash)]
pub struct SessionRef {
    pub provider: ProviderKind,
    pub id: String,
}

/// The permission mode handed to the assistant CLI.
#[derive(Clone, Copy, Debug, PartialEq, Eq, Structural)]
pub enum PermissionMode {
    Default,
    AcceptEdits,
    BypassPermissions,
    Delegate,
    DontAsk,
    Plan,
}

impl PermissionMode {
    /// The flag value the CLI expects for each mode.
    pub fn as_claude_cli_flag(self) -> (r: &'static str)
        ensures
            self == PermissionMode::Default ==> r@ == "default"@,
            self == PermissionMode::AcceptEdits ==> r@ == "acceptEdits"@,
            self == PermissionMode::BypassPermissions ==> r@ == "bypassPermissions"@,
            self == PermissionMode::Delegate ==> r@ == "delegate"@,
            self == PermissionMode::DontAsk ==> r@ == "dontAsk"@,
            self == PermissionMode::Plan ==> r@ == "plan"@,
    {
        match self {
            PermissionMode::Default => "default",
            PermissionMode::AcceptEdits => "acceptEdits",
            PermissionMode::BypassPermissions => "bypassPermissions",
            PermissionMode::Delegate => "delegate",
            PermissionMode::DontAsk => "dontAsk",
            PermissionMode::Plan => "plan",
        }
    }
}

/// Capabilities of a model backend.
#[derive(Clone, Copy, Debug)]
pub struct ModelCapabilities {
    pub supports_streaming: bool,
    pub supports_tools: bool,
    pub supports_vision: bool,
    pub supports_thinking: bool,
    pub supports_mcp: bool,
}

/// Token usage of one run.
#[derive(Clone, Debug)]
pub struct TokenUsage {
    pub input_tokens: u64,
    pub output_tokens: u64,
    pub cache_read_input_tokens: u64,
    pub cache_creation_input_tokens: u64,
}

impl TokenUsage {
    /// A usage of all zeroes.
    pub fn new_zero() -> (r: TokenUsage)
        ensures
            r.input_tokens == 0,
            r.output_tokens == 0,
            r.cache_read_input_tokens == 0,
            r.cache_creation_input_tokens == 0,
    {
        TokenUsage {
            input_tokens: 0,
            output_tokens: 0,
            cache_read_input_tokens: 0,
            cache_creation_input_tokens: 0,
        }
    }
}

/// Provider selection.
#[derive(Clone, Debug)]
pub enum ModelConfig {
    ClaudeCli(ClaudeCliConfig),
}

/// Configuration of the assistant-CLI backend.
#[derive(Clone, Debug)]
pub struct ClaudeCliConfig {
    pub claude_path: String,
    pub model: Option<String>,
    pub permission_mode: PermissionMode,
    pub dangerously_skip_permissions: bool,
    pub include_partial_messages: bool,
}

/// One prompt-to-assistant invocation, immutable per run.
#[derive(Clone, Debug)]
pub struct RunRequest {
    pub prompt: String,
    pub cwd: String,
    pub add_dirs: Vec<String>,
    pub mcp_config_path: Option<String>,
    pub system_prompt: Option<String>,
    pub append_system_prompt: Option<String>,
    pub resume: Option<SessionRef>,
    pub fork_session: bool,
    pub max_thinking_tokens: Option<u32>,
}

/// The final outcome of one run.
#[derive(Clone, Debug)]
pub struct RunResult {
    pub session: Option<SessionRef>,
    pub is_error: bool,
    pub text: String,
    pub usage: Option<TokenUsage>,
}

/// A reduced run request for simple backends.
#[derive(Clone, Debug)]
pub struct ModelRunRequest {
    pub prompt: String,
    pub cwd: String,
    pub resume: Option<crate::domain::SessionId>,
}

/// A reduced run outcome for simple backends.
#[derive(Clone, Debug)]
pub struct ModelRunResult {
    pub session_id: Option<crate::domain::SessionId>,
    pub text: String,
    pub is_error: bool,
}

/// A concrete CLI invocation.
#[derive(Clone, Debug)]
pub struct CliInvocation {
    pub program: String,
    pub args: Vec<String>,
    pub cwd: String,
    pub env: Vec<(String, String)>,
}

/// A provider-specific prompt adapter.
pub trait PromptAdapter {
    fn provider(&self) -> ProviderKind;
}

/// The prompt adapter for the assistant CLI.
#[derive(Clone, Debug)]
pub struct ClaudeCliPromptAdapter {
    pub cfg: ClaudeCliConfig,
}

impl PromptAdapter for ClaudeCliPromptAdapter {
    fn provider(&self) -> ProviderKind {
        ProviderKind::ClaudeCli
    }
}

impl ClaudeCliPromptAdapter {
    /// Build the CLI argument list for a run: streaming NDJSON output,
    /// the permission mode, optional model, appended system prompts,
    /// allowed directories, resume, tool config, and finally the
    /// prompt itself as the last argument.
    pub fn build_invocation(&self, req: &RunRequest) -> (r: CliInvocation)
        ensures
            r.program@ == self.cfg.claude_path@,
            r.cwd@ == req.cwd@,
            r.env@.len() == 0,
            r.args@.len() > 0,
            r.args@.last()@ == req.prompt@,
            r.args@[0]@ == "-p"@,
    {
        let mut args: Vec<String> = Vec::new();
        args.push(lit("-p"));
        args.push(lit("--output-format"));
        args.push(lit("stream-json"));
        args.push(lit("--verbose"));
        args.push(lit("--permission-mode"));
        args.push(lit(self.cfg.permission_mode.as_claude_cli_flag()));
        if self.cfg.dangerously_skip_permissions {
            args.push(lit("--dangerously-skip-permissions"));
        }
        if self.cfg.include_partial_messages {
            args.push(lit("--include-partial-messages"));
        }
        match &self.cfg.model {
            Some(m) => {
                args.push(lit("--model"));
                args.push(lit(m.as_str()));
            },
            None => {},
        }
        match &req.system_prompt {
            Some(sys) => {
                args.push(lit("--append-system-prompt"));
                args.push(lit(sys.as_str()));
            },
            None => {},
        }
        match &req.append_system_prompt {
            Some(sys) => {
                args.push(lit("--append-system-prompt"));
                args.push(lit(sys.as_str()));
            },
            None => {},
        }
        if req.add_dirs.len() > 0 {
            args.push(lit("--add-dir"));
            let mut di: usize = 0;
            while di < req.add_dirs.len()
                invariant
                    args@.len() > 0,
                    args@[0]@ == "-p"@,
                decreases req.add_dirs@.len() - di,
            {
                args.push(lit(req.add_dirs[di].as_str()));
                di += 1;
            }
        }
        match &req.resume {
            Some(s) => {
                if s.provider == ProviderKind::ClaudeCli {
                    args.push(lit("--resume"));
                    args.push(lit(s.id.as_str()));
                    if req.fork_session {
                        args.push(lit("--fork-session"));
                    }
                }
            },
            None => {},
        }
        match &req.mcp_config_path {
            Some(p) => {
                args.push(lit("--mcp-config"));
                args.push(lit(p.as_str()));
            },
            None => {},
        }
        args.push(lit(req.prompt.as_str()));
        CliInvocation {
            program: lit(self.cfg.claude_path.as_str()),
            args,
            cwd: lit(req.cwd.as_str()),
            env: Vec::new(),
        }
    }
}

/// A copied string.
fn lit(s: &str) -> (r: String)
    ensures
        r@ == s@,
{
    let c = str_chars(s);
    chars_string(&c)
}

} // verus!
