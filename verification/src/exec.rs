//! Planning one command execution and reporting its outcome. Spawning the
//! child and collecting its output is the caller's part; what to spawn, with
//! which environment, and what to answer is decided here.

use vstd::prelude::*;
use vstd::string::StringExecFns;
use vstd::utf8::*;

verus! {

/// Name of the variable under which the child finds the request's structured
/// data, serialized as one JSON text.
pub const DATA_VARIABLE: &'static str = "DATA";

/// Name of the variable that tells the child where to send its traces.
pub const TRACING_ENDPOINT_VARIABLE: &'static str = "TRACING_ENDPOINT";

/// Where traces go unless the agent is told otherwise.
pub const DEFAULT_TRACING_ENDPOINT: &'static str = "http://172.16.238.254:4317";

/// Why a command produced no result.
#[derive(Debug, Clone, Copy, PartialEq, Eq, Structural)]
pub enum ExecutionError {
    /// The program could not be started at all.
    SpawnFailed,
    /// The program ran, but its output could not be collected.
    IoFailure,
}

/// Why a result could not be put into text.
#[derive(Debug, Clone, Copy, PartialEq, Eq, Structural)]
pub enum EncodingError {
    /// The captured output is not UTF-8.
    InvalidUtf8,
}

/// The outcome of a finished child process, with its output as raw bytes.
#[derive(Debug, Clone, PartialEq, Eq)]
pub struct ExecResult {
    pub exit_code: Option<i32>,
    pub exit_signal: Option<i32>,
    pub stdout: Vec<u8>,
    pub stderr: Vec<u8>,
}

/// The outcome of a finished child process, with its output as text. This is
/// the form in which results are answered to structured requests.
#[derive(Debug, Clone, PartialEq, Eq)]
pub struct ExecResponse {
    pub exit_code: Option<i32>,
    pub exit_signal: Option<i32>,
    pub stdout: String,
    pub stderr: String,
}

impl ExecResult {
    /// True when the result names an exit code or a signal, and not both.
    pub open spec fn one_populated(self) -> bool {
        (self.exit_code is Some) != (self.exit_signal is Some)
    }

    /// Puts what the operating system reported of a finished child into a
    /// result. An exit code wins over a signal, so the two are never both
    /// present; where the platform reported either, exactly one is.
    pub fn from_status(
        code: Option<i32>,
        signal: Option<i32>,
        stdout: Vec<u8>,
        stderr: Vec<u8>,
    ) -> (r: ExecResult)
        ensures
            r.exit_code == code,
            r.exit_signal == (if code is Some {
                None
            } else {
                signal
            }),
            r.stdout == stdout,
            r.stderr == stderr,
            !(r.exit_code is Some && r.exit_signal is Some),
            (code is Some || signal is Some) ==> r.one_populated(),
    {
        let exit_signal = match code {
            Some(_) => None,
            None => signal,
        };
        ExecResult { exit_code: code, exit_signal, stdout, stderr }
    }

    /// The exit code to record on the trace of the request: the process's own
    /// where it has one, else 1.
    pub fn reported_exit_code(&self) -> (code: i64)
        ensures
            code == (match self.exit_code {
                Some(c) => c as int,
                None => 1,
            }),
    {
        match self.exit_code {
            Some(c) => c as i64,
            None => 1,
        }
    }
}

/// The error of `String::from_utf8`; nothing is read from it.
#[verifier::external_type_specification]
#[verifier::external_body]
pub struct ExFromUtf8Error(std::string::FromUtf8Error);

/// `String::from_utf8`: succeeds exactly on valid UTF-8, and the string it
/// gives consists of the very bytes handed in.
#[verifier::external_body]
fn string_from_utf8(bytes: Vec<u8>) -> (r: Result<String, std::string::FromUtf8Error>)
    ensures
        r is Ok <==> valid_utf8(bytes@),
        r is Ok ==> encode_utf8(r->Ok_0@) == bytes@,
{
    String::from_utf8(bytes)
}

impl ExecResponse {
    /// Puts a result into text. Output that is not UTF-8 is an error, never
    /// silently altered.
    pub fn from_result(result: ExecResult) -> (r: Result<ExecResponse, EncodingError>)
        ensures
            r is Ok <==> valid_utf8(result.stdout@) && valid_utf8(result.stderr@),
            r is Err ==> r->Err_0 == EncodingError::InvalidUtf8,
            r is Ok ==> {
                &&& r->Ok_0.exit_code == result.exit_code
                &&& r->Ok_0.exit_signal == result.exit_signal
                &&& r->Ok_0.stdout@ == decode_utf8(result.stdout@)
                &&& r->Ok_0.stderr@ == decode_utf8(result.stderr@)
            },
    {
        let ExecResult { exit_code, exit_signal, stdout, stderr } = result;
        let out = match string_from_utf8(stdout) {
            Ok(text) => text,
            Err(_) => {
                return Err(EncodingError::InvalidUtf8);
            },
        };
        let err = match string_from_utf8(stderr) {
            Ok(text) => text,
            Err(_) => {
                return Err(EncodingError::InvalidUtf8);
            },
        };
        proof {
            encode_utf8_decode_utf8(out@);
            encode_utf8_decode_utf8(err@);
        }
        Ok(ExecResponse { exit_code, exit_signal, stdout: out, stderr: err })
    }
}

/// The body of the liveness probe.
pub fn health() -> (body: &'static str)
    ensures
        body@ == "OK"@,
{
    "OK"
}

/// The texts of a list of strings.
pub open spec fn texts(list: Seq<String>) -> Seq<Seq<char>> {
    list.map_values(|s: String| s@)
}

/// The texts of a list of name-value pairs.
pub open spec fn pairs(list: Seq<(String, String)>) -> Seq<(Seq<char>, Seq<char>)> {
    list.map_values(|p: (String, String)| (p.0@, p.1@))
}

/// The parts written one after the other with `sep` between neighbours.
pub open spec fn joined(parts: Seq<Seq<char>>, sep: Seq<char>) -> Seq<char>
    decreases parts.len(),
{
    if parts.len() == 0 {
        Seq::empty()
    } else if parts.len() == 1 {
        parts[0]
    } else {
        joined(parts.drop_last(), sep) + sep + parts.last()
    }
}

/// The command as one line for logs and traces: its words with single spaces
/// between them. The line is for people; words are not quoted.
pub fn command_line(cmd: &Vec<String>) -> (line: String)
    ensures
        line@ == joined(texts(cmd@), seq![' ']),
{
    let mut line = String::new();
    let mut i: usize = 0;
    proof {
        reveal_strlit(" ");
        assert(" "@ =~= seq![' ']);
    }
    while i < cmd.len()
        invariant
            i <= cmd@.len(),
            " "@ == seq![' '],
            line@ == joined(texts(cmd@).subrange(0, i as int), seq![' ']),
        decreases cmd@.len() - i,
    {
        let ghost before = texts(cmd@).subrange(0, i as int);
        let ghost after = texts(cmd@).subrange(0, i + 1);
        proof {
            assert(after.drop_last() =~= before);
            assert(after.last() == cmd@[i as int]@);
        }
        if i > 0 {
            line.append(" ");
        } else {
            proof {
                assert(line@ =~= Seq::<char>::empty());
                assert(Seq::<char>::empty() + cmd@[i as int]@ =~= cmd@[i as int]@);
            }
        }
        line.append(cmd[i].as_str());
        i = i + 1;
    }
    proof {
        assert(texts(cmd@).subrange(0, i as int) =~= texts(cmd@));
    }
    line
}

/// True of the names that the agent sets itself for every child.
pub open spec fn reserved(name: Seq<char>) -> bool {
    name == DATA_VARIABLE@ || name == TRACING_ENDPOINT_VARIABLE@
}

/// The variables set for a child: the request's own, but for those under a
/// reserved name, and then the reserved ones, with `data` as the structured
/// data's text. What is not named here the child inherits from the agent.
pub open spec fn environment_of(vars: Seq<(Seq<char>, Seq<char>)>, data: Seq<char>) -> Seq<
    (Seq<char>, Seq<char>),
> {
    vars.filter(|p: (Seq<char>, Seq<char>)| !reserved(p.0)) + seq![
        (DATA_VARIABLE@, data),
        (TRACING_ENDPOINT_VARIABLE@, DEFAULT_TRACING_ENDPOINT@),
    ]
}

/// The agent's values stand last and alone under their names: whatever the
/// request brought under a reserved name is gone, and nothing else is.
pub proof fn lemma_reserved_names_replaced(vars: Seq<(Seq<char>, Seq<char>)>, data: Seq<char>)
    ensures
        environment_of(vars, data).len() >= 2,
        environment_of(vars, data)[environment_of(vars, data).len() - 2] == (
            DATA_VARIABLE@,
            data,
        ),
        environment_of(vars, data).last() == (
            TRACING_ENDPOINT_VARIABLE@,
            DEFAULT_TRACING_ENDPOINT@,
        ),
        forall|i: int|
            0 <= i < environment_of(vars, data).len() - 2 ==> !reserved(
                (#[trigger] environment_of(vars, data)[i]).0,
            ) && vars.contains(environment_of(vars, data)[i]),
        forall|i: int|
            0 <= i < vars.len() && !reserved((#[trigger] vars[i]).0) ==> environment_of(
                vars,
                data,
            ).contains(vars[i]),
{
    let keep = |p: (Seq<char>, Seq<char>)| !reserved(p.0);
    let kept = vars.filter(keep);
    let env = environment_of(vars, data);
    assert(env.len() == kept.len() + 2);
    assert forall|i: int| 0 <= i < env.len() - 2 implies !reserved((#[trigger] env[i]).0)
        && vars.contains(env[i]) by {
        assert(env[i] == kept[i]);
        vars.lemma_filter_pred(keep, i);
        assert(kept.contains(kept[i]));
        vars.lemma_filter_contains_rev(keep, kept[i]);
    }
    assert forall|i: int| 0 <= i < vars.len() && !reserved((#[trigger] vars[i]).0) implies env.contains(
        vars[i],
    ) by {
        vars.lemma_filter_contains(keep, i);
        let j = choose|j: int| 0 <= j < kept.len() && kept[j] == vars[i];
        assert(env[j] == vars[i]);
    }
}

/// Builds the variables to set for a child from the request's own variables
/// and the text of its structured data.
pub fn build_environment(vars: &Vec<(String, String)>, data: String) -> (env: Vec<
    (String, String),
>)
    ensures
        pairs(env@) == environment_of(pairs(vars@), data@),
{
    let data_name = DATA_VARIABLE.to_owned();
    let endpoint_name = TRACING_ENDPOINT_VARIABLE.to_owned();
    let ghost keep = |p: (Seq<char>, Seq<char>)| !reserved(p.0);
    let mut env: Vec<(String, String)> = Vec::new();
    let mut i: usize = 0;
    proof {
        reveal(Seq::filter);
        assert(pairs(vars@).subrange(0, 0).filter(keep) =~= Seq::empty());
    }
    while i < vars.len()
        invariant
            i <= vars@.len(),
            data_name@ == DATA_VARIABLE@,
            endpoint_name@ == TRACING_ENDPOINT_VARIABLE@,
            keep == |p: (Seq<char>, Seq<char>)| !reserved(p.0),
            pairs(env@) == pairs(vars@).subrange(0, i as int).filter(keep),
        decreases vars@.len() - i,
    {
        let ghost before = pairs(vars@).subrange(0, i as int);
        let ghost after = pairs(vars@).subrange(0, i + 1);
        let ghost kept = pairs(env@);
        proof {
            reveal(Seq::filter);
            assert(after.drop_last() =~= before);
            assert(after.last() == (vars@[i as int].0@, vars@[i as int].1@));
        }
        let name = &vars[i].0;
        if !(*name == data_name || *name == endpoint_name) {
            env.push((name.clone(), vars[i].1.clone()));
            proof {
                assert(pairs(env@) =~= kept.push(after.last()));
            }
        }
        i = i + 1;
    }
    proof {
        assert(pairs(vars@).subrange(0, i as int) =~= pairs(vars@));
    }
    env.push((data_name, data));
    env.push((endpoint_name, DEFAULT_TRACING_ENDPOINT.to_owned()));
    proof {
        assert(pairs(env@) =~= environment_of(pairs(vars@), data@));
    }
    env
}

/// A JSON value of any shape. The agent carries it and never looks inside.
#[verifier::external_type_specification]
#[verifier::external_body]
pub struct ExJsonValue(serde_json::Value);

/// The error of `serde_json`; nothing is read from it.
#[verifier::external_type_specification]
#[verifier::external_body]
pub struct ExJsonError(serde_json::Error);

/// `Clone::clone` of `serde_json::Value`: a copy equal to the value, which
/// is therefore written out as the same text.
pub assume_specification[ <serde_json::Value as Clone>::clone ](
    value: &serde_json::Value,
) -> (copy: serde_json::Value)
    ensures
        json_rendering(copy) == json_rendering(*value),
;

/// The text that `serde_json::to_string` writes for a JSON value, where it
/// writes one.
pub uninterp spec fn json_rendering(value: serde_json::Value) -> Option<Seq<char>>;

/// `Default::default` of `serde_json::Value`: the JSON null, which is
/// written out as `null`.
pub assume_specification[ <serde_json::Value as Default>::default ]() -> (value:
    serde_json::Value)
    ensures
        json_rendering(value) == Some("null"@),
;

/// `serde_json::to_string` on a JSON value: the value written out as compact
/// JSON text. The text depends on the value alone.
#[verifier::external_body]
fn json_text(value: &serde_json::Value) -> (r: Result<String, serde_json::Error>)
    ensures
        r is Ok <==> json_rendering(*value) is Some,
        r is Ok ==> json_rendering(*value) == Some(r->Ok_0@),
{
    serde_json::to_string(value)
}

/// The text under which structured data reaches the child: its JSON text,
/// or the empty text where it has none.
pub open spec fn data_text(value: serde_json::Value) -> Seq<char> {
    match json_rendering(value) {
        Some(text) => text,
        None => Seq::empty(),
    }
}

/// The environment part of a request: structured data of any shape for the
/// child, and plain variables.
#[derive(Debug)]
pub struct NodeEnv {
    pub data: serde_json::Value,
    pub vars: Vec<(String, String)>,
}

impl Clone for NodeEnv {
    /// A copy with the same variables and data that reads the same.
    fn clone(&self) -> (copy: NodeEnv)
        ensures
            pairs(copy.vars@) == pairs(self.vars@),
            json_rendering(copy.data) == json_rendering(self.data),
    {
        let mut vars: Vec<(String, String)> = Vec::new();
        let mut i: usize = 0;
        while i < self.vars.len()
            invariant
                i <= self.vars@.len(),
                pairs(vars@) == pairs(self.vars@).subrange(0, i as int),
            decreases self.vars@.len() - i,
        {
            let ghost before = pairs(vars@);
            vars.push((self.vars[i].0.clone(), self.vars[i].1.clone()));
            proof {
                assert(pairs(vars@) =~= before.push((self.vars@[i as int].0@, self.vars@[i as int].1@)));
                assert(pairs(vars@) =~= pairs(self.vars@).subrange(0, i + 1));
            }
            i = i + 1;
        }
        proof {
            assert(pairs(self.vars@).subrange(0, i as int) =~= pairs(self.vars@));
        }
        NodeEnv { data: self.data.clone(), vars }
    }
}

impl Default for NodeEnv {
    /// No variables, and JSON null for the structured data.
    fn default() -> (env: NodeEnv)
        ensures
            env.vars@.len() == 0,
            json_rendering(env.data) == Some("null"@),
    {
        NodeEnv { data: serde_json::Value::default(), vars: Vec::new() }
    }
}

impl NodeEnv {
    /// The variables to set for the child: see `environment_of`. The
    /// structured data goes in as its JSON text, or as the empty text where
    /// it has none. The agent's own environment is not touched.
    pub fn load(&self) -> (env: Vec<(String, String)>)
        ensures
            pairs(env@) == environment_of(pairs(self.vars@), data_text(self.data)),
    {
        let data = match json_text(&self.data) {
            Ok(text) => text,
            Err(_) => String::new(),
        };
        build_environment(&self.vars, data)
    }
}

/// A request to run a command.
#[derive(Debug, Clone)]
pub struct ExecRequest {
    pub cmd: Vec<String>,
    pub env: NodeEnv,
}

/// What to spawn for a request.
#[derive(Debug, Clone)]
pub struct ExecPlan {
    /// The program: the first word of the command.
    pub program: String,
    /// Its arguments: the remaining words, as they are and in their order.
    pub args: Vec<String>,
    /// The variables to set for the child.
    pub environment: Vec<(String, String)>,
    /// The whole command as one line, for logs and traces.
    pub command_line: String,
}

impl ExecRequest {
    /// Decides what to spawn. An empty command names no program and cannot
    /// be spawned.
    pub fn plan(self) -> (r: Result<ExecPlan, ExecutionError>)
        ensures
            r is Err <==> self.cmd@.len() == 0,
            r is Err ==> r->Err_0 == ExecutionError::SpawnFailed,
            r is Ok ==> {
                &&& r->Ok_0.program@ == self.cmd@[0]@
                &&& texts(r->Ok_0.args@) == texts(self.cmd@).drop_first()
                &&& r->Ok_0.command_line@ == joined(texts(self.cmd@), seq![' '])
                &&& pairs(r->Ok_0.environment@) == environment_of(
                    pairs(self.env.vars@),
                    data_text(self.env.data),
                )
            },
    {
        let ExecRequest { cmd, env } = self;
        if cmd.len() == 0 {
            return Err(ExecutionError::SpawnFailed);
        }
        let command_line = command_line(&cmd);
        let environment = env.load();
        let mut args = cmd;
        let program = args.remove(0);
        proof {
            assert(texts(args@) =~= texts(self.cmd@).drop_first());
        }
        Ok(ExecPlan { program, args, environment, command_line })
    }
}

/// What `str::trim_end` makes of a text: the text without the white space at
/// its end.
pub uninterp spec fn trimmed_end(text: Seq<char>) -> Seq<char>;

/// `str::trim_end`: the given text without its trailing white space, as
/// Unicode defines white space.
#[verifier::external_body]
fn trim_end<'a>(text: &'a str) -> (r: &'a str)
    ensures
        r@ == trimmed_end(text@),
{
    text.trim_end()
}

/// The command that runs a piece of script, given as it is to be run.
pub fn node_arguments(script: String) -> (cmd: Vec<String>)
    ensures
        texts(cmd@) == seq!["node"@, "-e"@, script@],
{
    let mut cmd: Vec<String> = Vec::new();
    cmd.push("node".to_owned());
    cmd.push("-e".to_owned());
    cmd.push(script);
    proof {
        assert(texts(cmd@) =~= seq!["node"@, "-e"@, script@]);
    }
    cmd
}

/// The command that runs the code of a raw request: the interpreter, its
/// flag for inline scripts, and the code without trailing white space.
pub fn node_command(code: &str) -> (cmd: Vec<String>)
    ensures
        texts(cmd@) == seq!["node"@, "-e"@, trimmed_end(code@)],
{
    node_arguments(trim_end(code).to_owned())
}

impl ExecRequest {
    /// The request that a raw frame stands for: run its code with the
    /// interpreter, with no variables and no structured data of its own.
    pub fn from_code(code: &str) -> (request: ExecRequest)
        ensures
            texts(request.cmd@) == seq!["node"@, "-e"@, trimmed_end(code@)],
            request.env.vars@.len() == 0,
            data_text(request.env.data) == "null"@,
    {
        ExecRequest { cmd: node_command(code), env: NodeEnv::default() }
    }

    /// The request that an execution frame stands for: run the command it
    /// carries, with no variables and no structured data of its own.
    pub fn from_words(command: Vec<String>) -> (request: ExecRequest)
        ensures
            request.cmd == command,
            request.env.vars@.len() == 0,
            data_text(request.env.data) == "null"@,
    {
        ExecRequest { cmd: command, env: NodeEnv::default() }
    }
}

} // verus!
