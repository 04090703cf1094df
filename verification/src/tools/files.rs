//! The shell and the file system as tools.
use vstd::prelude::*;
use vstd::string::*;
use vstd::utf8::encode_utf8;

use crate::json::{Json, Number, Tree, object};
use crate::path;
use crate::session::store::{SessionStore, StoreView, session_at};
use crate::text::{concat2, concat3, decode_lossy, same, utf8_lossy};
use crate::tool::call::{CallView, ToolCallContext};
use crate::tool::description::{
    DescriptionView, ToolCapabilities, ToolConcurrency, ToolDescription,
};
use crate::tool::error::{ErrorView, ToolError, failed, no_service};
use crate::tool::registry::Tool;
use crate::tool::stream::result_view;
use crate::tools::schema::{word_trees, word_views, words};

verus! {

/// What a shell command left behind.
#[derive(Debug, Clone)]
pub struct CommandOutput {
    pub stdout: String,
    pub stderr: String,
    pub exit_code: Option<i32>,
}

/// What the output of a command stands for.
#[verifier::ext_equal]
pub struct OutputView {
    pub stdout: Seq<char>,
    pub stderr: Seq<char>,
    pub exit_code: Option<i32>,
}

impl View for CommandOutput {
    type V = OutputView;

    open spec fn view(&self) -> OutputView {
        OutputView { stdout: self.stdout@, stderr: self.stderr@, exit_code: self.exit_code }
    }
}

/// A whole number as JSON.
pub open spec fn whole(n: i64) -> Tree {
    if n < 0 {
        Tree::Negative(n)
    } else {
        Tree::Unsigned(n as u64)
    }
}

/// The JSON form of the output of a command.
pub open spec fn output_tree(o: OutputView) -> Tree {
    object().with("stdout"@, Tree::Text(o.stdout)).with("stderr"@, Tree::Text(o.stderr)).with(
        "exit_code"@,
        (match o.exit_code {
            Some(n) => whole(n as i64),
            None => Tree::Null,
        }),
    )
}

/// The output of a command, from the bytes that it wrote.
pub open spec fn decoded_output(
    stdout: Seq<u8>,
    stderr: Seq<u8>,
    exit_code: Option<i32>,
) -> OutputView {
    OutputView { stdout: utf8_lossy(stdout), stderr: utf8_lossy(stderr), exit_code }
}

impl CommandOutput {
    /// The output of a command, from the bytes that it wrote. What is not UTF-8 is replaced.
    pub fn decoded(stdout: &Vec<u8>, stderr: &Vec<u8>, exit_code: Option<i32>) -> (r: CommandOutput)
        ensures
            r@ == decoded_output(stdout@, stderr@, exit_code),
    {
        CommandOutput { stdout: decode_lossy(stdout), stderr: decode_lossy(stderr), exit_code }
    }

    /// The JSON form of the output.
    pub fn to_json(&self) -> (r: Json)
        ensures
            r@ == output_tree(self@),
    {
        let code = match self.exit_code {
            Some(n) => Json::Number(Number::signed(n as i64)),
            None => Json::Null,
        };
        Json::object().with("stdout", Json::text(self.stdout.as_str())).with(
            "stderr",
            Json::text(self.stderr.as_str()),
        ).with("exit_code", code)
    }
}

/// The service that runs shell commands. What a command does and prints is up to the provider. A
/// shell is used up by a command and comes back as the command left it: one that is as it was has
/// run nothing.
pub trait Shell: Sized {
    fn run(self, command: &str, cwd: &str) -> (r: (Self, Result<CommandOutput, ToolError>));
}

/// Whether a shell that was asked to run a command in a directory may have come back so, with an
/// outcome.
pub open spec fn may_run<S: Shell>(
    before: S,
    command: Seq<char>,
    cwd: Seq<char>,
    after: S,
    out: Result<CommandOutput, ToolError>,
) -> bool {
    exists|c: &str, d: &str|
        c@ == command && d@ == cwd && #[trigger] call_ensures(S::run, (before, c, d), (after, out))
}

/// The service that reads and writes files. What the files hold is up to the provider. It is used
/// up by writing and comes back as the writing left it: one that is as it was has written nothing.
pub trait FileSystem: Sized {
    fn read(&self, path: &str) -> (r: Result<String, ToolError>);

    fn write(self, path: &str, content: &str) -> (r: (Self, Result<(), ToolError>));
}

/// Whether a file system that was asked for a file may have given an outcome.
pub open spec fn may_read<F: FileSystem>(
    files: &F,
    path: Seq<char>,
    out: Result<String, ToolError>,
) -> bool {
    exists|p: &str| p@ == path && #[trigger] call_ensures(F::read, (files, p), out)
}

/// Whether a file system that was told to write a file may have come back so, with an outcome.
pub open spec fn may_write<F: FileSystem>(
    before: F,
    path: Seq<char>,
    content: Seq<char>,
    after: F,
    out: Result<(), ToolError>,
) -> bool {
    exists|p: &str, c: &str|
        p@ == path && c@ == content && #[trigger] call_ensures(
            F::write,
            (before, p, c),
            (after, out),
        )
}

/// A path seen from the working directory of a call, so that a relative path never means
/// something below the directory of the process.
pub fn resolve_path(ctx: &ToolCallContext, p: &str) -> (r: String)
    ensures
        r@ == path::under(ctx@.cwd, p@),
{
    path::join(ctx.cwd.as_str(), p)
}

/// Whether a session plans only, so that nothing may be changed.
pub open spec fn planning(store: Option<StoreView>, session_id: Seq<char>) -> bool {
    match store {
        Some(s) => match session_at(s.sessions, session_id) {
            Some(session) => session.work_mode == "plan"@,
            None => false,
        },
        None => false,
    }
}

/// A store as it stands.
pub open spec fn store_view(store: Option<&SessionStore>) -> Option<StoreView> {
    match store {
        Some(s) => Some(s@),
        None => None,
    }
}

/// Whether a session plans only.
pub fn is_plan_mode(store: Option<&SessionStore>, session_id: &str) -> (r: bool)
    ensures
        r == planning(store_view(store), session_id@),
{
    match store {
        Some(s) => match s.get(session_id) {
            Some(session) => {
                let mode = session.work_mode();
                same(mode.as_str(), "plan")
            },
            None => false,
        },
        None => false,
    }
}

/// Runs a shell command.
#[derive(Debug, Clone, Copy, PartialEq, Eq, Structural)]
pub struct BashTool;

impl Tool for BashTool {
    open spec fn named(&self) -> Seq<char> {
        "bash"@
    }

    open spec fn described(&self) -> DescriptionView {
        DescriptionView {
            name: "bash"@,
            description: "Run a shell command and return stdout/stderr/exit code."@,
            parameters: object().with("type"@, Tree::Text("object"@)).with(
                "properties"@,
                object().with(
                    "command"@,
                    object().with("type"@, Tree::Text("string"@)).with(
                        "description"@,
                        Tree::Text("the shell command to run"@),
                    ),
                ),
            ).with("required"@, Tree::Array(word_trees(seq!["command"@]))),
        }
    }

    open spec fn listed(&self, ctx: CallView) -> bool {
        true
    }

    fn id(&self) -> (r: String) {
        "bash".to_owned()
    }

    fn description(&self) -> (r: ToolDescription) {
        let list1: Vec<&'static str> = vec!["command"];
        assert(word_views(list1@) =~= seq!["command"@]);
        let parameters = Json::object().with("type", Json::text("object")).with(
            "properties",
            Json::object().with(
                "command",
                Json::object().with("type", Json::text("string")).with(
                    "description",
                    Json::text("the shell command to run"),
                ),
            ),
        ).with("required", words(list1));
        ToolDescription::new(
            "bash",
            "Run a shell command and return stdout/stderr/exit code.",
            parameters,
        )
    }

    fn should_list(&self, ctx: &ToolCallContext) -> (r: bool) {
        true
    }
}

/// The command that is to be run, or why none is: a session that plans runs nothing.
pub open spec fn bash_plan(plan: bool, args: Tree, has_shell: bool) -> Result<Seq<char>, ErrorView> {
    if plan {
        Err(failed("plan 模式下禁止执行命令"@))
    } else {
        match args.text_at("command"@) {
            None => Err(failed("missing `command` argument"@)),
            Some(command) => if has_shell {
                Ok(command)
            } else {
                Err(no_service("Shell"@))
            },
        }
    }
}

/// What the tool gives, from what the shell gave.
pub open spec fn bash_result(out: Result<CommandOutput, ToolError>) -> Result<Tree, ErrorView> {
    match out {
        Ok(o) => Ok(output_tree(o@)),
        Err(e) => Err(e@),
    }
}

/// A planned text as it stands.
pub open spec fn plan_view(r: Result<String, ToolError>) -> Result<Seq<char>, ErrorView> {
    match r {
        Ok(s) => Ok(s@),
        Err(e) => Err(e@),
    }
}

impl BashTool {
    /// Decides what is to be run.
    pub fn plan(&self, plan_mode: bool, args: &Json, has_shell: bool) -> (r: Result<
        String,
        ToolError,
    >)
        ensures
            plan_view(r) == bash_plan(plan_mode, args@, has_shell),
    {
        if plan_mode {
            return Err(ToolError::execution("plan 模式下禁止执行命令"));
        }
        match args.str_at("command") {
            None => Err(ToolError::execution("missing `command` argument")),
            Some(command) => if has_shell {
                Ok(command.to_owned())
            } else {
                Err(ToolError::missing_service("Shell"))
            },
        }
    }

    /// What the tool gives, from what the shell gave.
    pub fn finish(&self, out: Result<CommandOutput, ToolError>) -> (r: Result<Json, ToolError>)
        ensures
            result_view(r) == bash_result(out),
    {
        match out {
            Ok(o) => Ok(o.to_json()),
            Err(e) => Err(e),
        }
    }

    /// Runs the command in the directory of the call, where it may be run. Where it may not, the
    /// shell comes back as it was.
    pub fn run<S: Shell>(
        &self,
        ctx: &ToolCallContext,
        store: Option<&SessionStore>,
        shell: Option<S>,
        args: &Json,
    ) -> (r: (Option<S>, Result<Json, ToolError>))
        ensures
            match bash_plan(
                planning(store_view(store), ctx@.session_id),
                args@,
                shell is Some,
            ) {
                Err(e) => {
                    &&& r.1 matches Err(x)
                    &&& x@ == e
                    &&& r.0 == shell
                },
                Ok(command) => {
                    &&& r.0 is Some
                    &&& exists|out: Result<CommandOutput, ToolError>| #[trigger]
                        may_run(shell->0, command, ctx@.cwd, r.0->0, out) && result_view(r.1)
                            == bash_result(out)
                },
            },
    {
        let plan = is_plan_mode(store, ctx.session_id.as_str());
        match self.plan(plan, args, shell.is_some()) {
            Err(e) => (shell, Err(e)),
            Ok(command) => match shell {
                Some(s) => {
                    let text = command.as_str();
                    let cwd = ctx.cwd.as_str();
                    let ghost given = s;
                    let (after, out) = s.run(text, cwd);
                    let ghost gave = out;
                    let r = (Some(after), self.finish(out));
                    proof {
                        let plan = bash_plan(plan, args@, true);
                        assert(plan matches Ok(c) && c == command@);
                        assert(call_ensures(S::run, (given, text, cwd), (after, gave)));
                        assert(may_run(shell->0, plan->Ok_0, ctx@.cwd, r.0->0, gave));
                        assert(result_view(r.1) == bash_result(gave));
                    }
                    r
                },
                None => (None, Err(ToolError::missing_service("Shell"))),
            },
        }
    }
}

/// Reads a file.
#[derive(Debug, Clone, Copy, PartialEq, Eq, Structural)]
pub struct FsReadTool;

impl Tool for FsReadTool {
    open spec fn named(&self) -> Seq<char> {
        "fs_read"@
    }

    open spec fn described(&self) -> DescriptionView {
        DescriptionView {
            name: "fs_read"@,
            description: "Read a UTF-8 text file and return its content."@,
            parameters: object().with("type"@, Tree::Text("object"@)).with(
                "properties"@,
                object().with(
                    "path"@,
                    object().with("type"@, Tree::Text("string"@)).with(
                        "description"@,
                        Tree::Text("path to the file"@),
                    ),
                ),
            ).with("required"@, Tree::Array(word_trees(seq!["path"@]))),
        }
    }

    open spec fn listed(&self, ctx: CallView) -> bool {
        true
    }

    fn id(&self) -> (r: String) {
        "fs_read".to_owned()
    }

    fn description(&self) -> (r: ToolDescription) {
        let list1: Vec<&'static str> = vec!["path"];
        assert(word_views(list1@) =~= seq!["path"@]);
        let parameters = Json::object().with("type", Json::text("object")).with(
            "properties",
            Json::object().with(
                "path",
                Json::object().with("type", Json::text("string")).with(
                    "description",
                    Json::text("path to the file"),
                ),
            ),
        ).with("required", words(list1));
        ToolDescription::new(
            "fs_read",
            "Read a UTF-8 text file and return its content.",
            parameters,
        )
    }

    fn should_list(&self, ctx: &ToolCallContext) -> (r: bool) {
        true
    }

    fn capabilities(&self) -> (r: ToolCapabilities)
        ensures
            r == (ToolCapabilities { concurrency: ToolConcurrency::Concurrent, read_only: true }),
    {
        ToolCapabilities { concurrency: ToolConcurrency::Concurrent, read_only: true }
    }
}

/// The file that is to be read, or why none is.
pub open spec fn read_plan(cwd: Seq<char>, args: Tree, has_files: bool) -> Result<
    Seq<char>,
    ErrorView,
> {
    match args.text_at("path"@) {
        None => Err(failed("missing `path` argument"@)),
        Some(p) => if has_files {
            Ok(path::under(cwd, p))
        } else {
            Err(no_service("FileSystem"@))
        },
    }
}

/// What the tool gives, from what was read.
pub open spec fn read_result(path: Seq<char>, content: Result<String, ToolError>) -> Result<
    Tree,
    ErrorView,
> {
    match content {
        Ok(s) => Ok(
            object().with("path"@, Tree::Text(path)).with("content"@, Tree::Text(s@)),
        ),
        Err(e) => Err(e@),
    }
}

impl FsReadTool {
    /// Decides what is to be read.
    pub fn plan(&self, ctx: &ToolCallContext, args: &Json, has_files: bool) -> (r: Result<
        String,
        ToolError,
    >)
        ensures
            plan_view(r) == read_plan(ctx@.cwd, args@, has_files),
    {
        match args.str_at("path") {
            None => Err(ToolError::execution("missing `path` argument")),
            Some(p) => if has_files {
                Ok(resolve_path(ctx, p))
            } else {
                Err(ToolError::missing_service("FileSystem"))
            },
        }
    }

    /// What the tool gives, from what was read.
    pub fn finish(&self, path: &str, content: Result<String, ToolError>) -> (r: Result<
        Json,
        ToolError,
    >)
        ensures
            result_view(r) == read_result(path@, content),
    {
        match content {
            Ok(s) => Ok(
                Json::object().with("path", Json::text(path)).with("content", Json::Text(s)),
            ),
            Err(e) => Err(e),
        }
    }

    /// Reads the file.
    pub fn run<F: FileSystem>(
        &self,
        ctx: &ToolCallContext,
        files: Option<&F>,
        args: &Json,
    ) -> (r: Result<Json, ToolError>)
        ensures
            match read_plan(ctx@.cwd, args@, files is Some) {
                Err(e) => r matches Err(x) && x@ == e,
                Ok(path) => exists|content: Result<String, ToolError>| #[trigger]
                    may_read(files->0, path, content) && result_view(r) == read_result(
                        path,
                        content,
                    ),
            },
    {
        match self.plan(ctx, args, files.is_some()) {
            Err(e) => Err(e),
            Ok(path) => match files {
                Some(f) => {
                    let place = path.as_str();
                    let content = f.read(place);
                    proof {
                        let plan = read_plan(ctx@.cwd, args@, true);
                        assert(plan matches Ok(p) && p == path@);
                        assert(call_ensures(F::read, (f, place), content));
                        assert(may_read(f, plan->Ok_0, content));
                    }
                    self.finish(place, content)
                },
                None => Err(ToolError::missing_service("FileSystem")),
            },
        }
    }
}

/// Writes a file.
#[derive(Debug, Clone, Copy, PartialEq, Eq, Structural)]
pub struct FsWriteTool;

impl Tool for FsWriteTool {
    open spec fn named(&self) -> Seq<char> {
        "fs_write"@
    }

    open spec fn described(&self) -> DescriptionView {
        DescriptionView {
            name: "fs_write"@,
            description: "Write UTF-8 text content to a file."@,
            parameters: object().with("type"@, Tree::Text("object"@)).with(
                "properties"@,
                object().with(
                    "path"@,
                    object().with("type"@, Tree::Text("string"@)).with(
                        "description"@,
                        Tree::Text("path to the file"@),
                    ),
                ).with(
                    "content"@,
                    object().with("type"@, Tree::Text("string"@)).with(
                        "description"@,
                        Tree::Text("content to write"@),
                    ),
                ),
            ).with("required"@, Tree::Array(word_trees(seq!["path"@, "content"@]))),
        }
    }

    open spec fn listed(&self, ctx: CallView) -> bool {
        true
    }

    fn id(&self) -> (r: String) {
        "fs_write".to_owned()
    }

    fn description(&self) -> (r: ToolDescription) {
        let list1: Vec<&'static str> = vec!["path", "content"];
        assert(word_views(list1@) =~= seq!["path"@, "content"@]);
        let parameters = Json::object().with("type", Json::text("object")).with(
            "properties",
            Json::object().with(
                "path",
                Json::object().with("type", Json::text("string")).with(
                    "description",
                    Json::text("path to the file"),
                ),
            ).with(
                "content",
                Json::object().with("type", Json::text("string")).with(
                    "description",
                    Json::text("content to write"),
                ),
            ),
        ).with("required", words(list1));
        ToolDescription::new("fs_write", "Write UTF-8 text content to a file.", parameters)
    }

    fn should_list(&self, ctx: &ToolCallContext) -> (r: bool) {
        true
    }
}

/// The file that is to be written and what it is to hold, or why nothing is written: a session
/// that plans writes nothing.
pub open spec fn write_plan(plan: bool, cwd: Seq<char>, args: Tree, has_files: bool) -> Result<
    (Seq<char>, Seq<char>),
    ErrorView,
> {
    if plan {
        Err(failed("plan 模式下禁止写文件"@))
    } else {
        match args.text_at("path"@) {
            None => Err(failed("missing `path` argument"@)),
            Some(p) => match args.text_at("content"@) {
                None => Err(failed("missing `content` argument"@)),
                Some(content) => if has_files {
                    Ok((path::under(cwd, p), content))
                } else {
                    Err(no_service("FileSystem"@))
                },
            },
        }
    }
}

/// What the tool gives, from how the writing went: the path and the number of bytes.
pub open spec fn write_result(
    path: Seq<char>,
    content: Seq<char>,
    done: Result<(), ToolError>,
) -> Result<Tree, ErrorView> {
    match done {
        Ok(_) => Ok(
            object().with("path"@, Tree::Text(path)).with(
                "written"@,
                Tree::Unsigned(encode_utf8(content).len() as u64),
            ),
        ),
        Err(e) => Err(e@),
    }
}

impl FsWriteTool {
    /// Decides what is to be written, and where.
    pub fn plan(
        &self,
        ctx: &ToolCallContext,
        plan_mode: bool,
        args: &Json,
        has_files: bool,
    ) -> (r: Result<(String, String), ToolError>)
        ensures
            match r {
                Ok(x) => write_plan(plan_mode, ctx@.cwd, args@, has_files) == Ok::<
                    (Seq<char>, Seq<char>),
                    ErrorView,
                >((x.0@, x.1@)),
                Err(e) => write_plan(plan_mode, ctx@.cwd, args@, has_files) == Err::<
                    (Seq<char>, Seq<char>),
                    ErrorView,
                >(e@),
            },
    {
        if plan_mode {
            return Err(ToolError::execution("plan 模式下禁止写文件"));
        }
        match args.str_at("path") {
            None => Err(ToolError::execution("missing `path` argument")),
            Some(p) => match args.str_at("content") {
                None => Err(ToolError::execution("missing `content` argument")),
                Some(content) => if has_files {
                    Ok((resolve_path(ctx, p), content.to_owned()))
                } else {
                    Err(ToolError::missing_service("FileSystem"))
                },
            },
        }
    }

    /// What the tool gives, from how the writing went.
    pub fn finish(&self, path: &str, content: &str, done: Result<(), ToolError>) -> (r: Result<
        Json,
        ToolError,
    >)
        ensures
            result_view(r) == write_result(path@, content@, done),
    {
        match done {
            Ok(_) => Ok(
                Json::object().with("path", Json::text(path)).with(
                    "written",
                    Json::number(content.as_bytes().len() as u64),
                ),
            ),
            Err(e) => Err(e),
        }
    }

    /// Writes the file, where it may be written. Where it may not, the file system comes back as
    /// it was.
    pub fn run<F: FileSystem>(
        &self,
        ctx: &ToolCallContext,
        store: Option<&SessionStore>,
        files: Option<F>,
        args: &Json,
    ) -> (r: (Option<F>, Result<Json, ToolError>))
        ensures
            match write_plan(
                planning(store_view(store), ctx@.session_id),
                ctx@.cwd,
                args@,
                files is Some,
            ) {
                Err(e) => {
                    &&& r.1 matches Err(x)
                    &&& x@ == e
                    &&& r.0 == files
                },
                Ok(x) => {
                    &&& r.0 is Some
                    &&& exists|done: Result<(), ToolError>| #[trigger]
                        may_write(files->0, x.0, x.1, r.0->0, done) && result_view(r.1)
                            == write_result(x.0, x.1, done)
                },
            },
    {
        let plan = is_plan_mode(store, ctx.session_id.as_str());
        match self.plan(ctx, plan, args, files.is_some()) {
            Err(e) => (files, Err(e)),
            Ok((path, content)) => match files {
                Some(f) => {
                    let place = path.as_str();
                    let text = content.as_str();
                    let ghost given = f;
                    let (after, done) = f.write(place, text);
                    let ghost gave = done;
                    let r = (Some(after), self.finish(place, text, done));
                    proof {
                        let plan = write_plan(plan, ctx@.cwd, args@, true);
                        assert(plan matches Ok(p) && p == (path@, content@));
                        assert(call_ensures(F::write, (given, place, text), (after, gave)));
                        assert(may_write(files->0, plan->Ok_0.0, plan->Ok_0.1, r.0->0, gave));
                        assert(result_view(r.1) == write_result(path@, content@, gave));
                    }
                    r
                },
                None => (None, Err(ToolError::missing_service("FileSystem"))),
            },
        }
    }
}

// ---------- the local providers ----------

/// The local shell.
#[derive(Debug, Clone, Copy, PartialEq, Eq, Structural)]
pub struct LocalShell;

/// The program that runs a command, given which of `sh` and `bash` there are: the first that
/// there is, and without either the one at its usual place.
pub open spec fn shell_program(has_sh: bool, has_bash: bool) -> Seq<char> {
    if has_sh {
        "sh"@
    } else if has_bash {
        "bash"@
    } else {
        "/bin/sh"@
    }
}

impl LocalShell {
    /// The program that runs a command, and its arguments.
    pub fn shell_invocation(&self, command: &str, has_sh: bool, has_bash: bool) -> (r: (
        &'static str,
        Vec<String>,
    ))
        ensures
            r.0@ == shell_program(has_sh, has_bash),
            r.1.deep_view() == seq!["-c"@, command@],
    {
        let program = if has_sh {
            "sh"
        } else if has_bash {
            "bash"
        } else {
            "/bin/sh"
        };
        let mut args: Vec<String> = Vec::new();
        args.push("-c".to_owned());
        args.push(command.to_owned());
        assert(args.deep_view() =~= seq!["-c"@, command@]);
        (program, args)
    }

    /// What is said where the shell could not be started.
    pub fn spawn_failed(&self, program: &str, error: &str) -> (r: ToolError)
        ensures
            r@ == failed("failed to spawn `"@ + program@ + "` (is a shell installed?): "@ + error@),
    {
        let head = concat3("failed to spawn `", program, "` (is a shell installed?): ");
        let message = concat2(head.as_str(), error);
        ToolError::execution(message.as_str())
    }
}

/// The local file system.
#[derive(Debug, Clone, Copy, PartialEq, Eq, Structural)]
pub struct LocalFileSystem;

impl LocalFileSystem {
    /// What is said where a file could not be read.
    pub fn read_failed(&self, path: &str, error: &str) -> (r: ToolError)
        ensures
            r@ == failed("读取文件失败 "@ + path@ + "："@ + error@),
    {
        let head = concat3("读取文件失败 ", path, "：");
        let message = concat2(head.as_str(), error);
        ToolError::execution(message.as_str())
    }

    /// What is said where a file could not be written.
    pub fn write_failed(&self, path: &str, error: &str) -> (r: ToolError)
        ensures
            r@ == failed("写入文件失败 "@ + path@ + "："@ + error@),
    {
        let head = concat3("写入文件失败 ", path, "：");
        let message = concat2(head.as_str(), error);
        ToolError::execution(message.as_str())
    }
}

/// In a session that plans no command is to be run and no file to be written, whatever the
/// arguments say.
pub proof fn lemma_planning_refuses(cwd: Seq<char>, args: Tree, has: bool)
    ensures
        bash_plan(true, args, has) is Err,
        write_plan(true, cwd, args, has) is Err,
{
}

} // verus!
