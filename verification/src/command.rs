//! Commands that are to be run, what comes of running them, and how a failure
//! is reported.
use vstd::prelude::*;

use crate::bytes::{bytes_text, shown_bytes};
use crate::text::{code_text, occurs_at, opt_text, same_text, shown_code, strs, texts};

verus! {

/// Where a standard stream of a command leads.
#[derive(Debug, Clone, Copy, PartialEq, Eq, Structural)]
pub enum Stream {
    /// To the same place as for the program itself.
    Inherit,
    /// Nowhere.
    Null,
    /// To the program itself.
    Piped,
}

/// A command, as it is handed to the operating system. A stream that is not
/// given is left to whoever runs the command.
#[derive(Debug)]
pub struct Command {
    pub program: String,
    pub args: Vec<String>,
    pub envs: Vec<(String, String)>,
    pub dir: Option<String>,
    pub stdin: Option<Stream>,
    pub stdout: Option<Stream>,
    pub stderr: Option<Stream>,
}

/// What a `Command` holds.
#[verifier::ext_equal]
pub struct CommandLine {
    pub program: Seq<char>,
    pub args: Seq<Seq<char>>,
    pub envs: Seq<(Seq<char>, Seq<char>)>,
    pub dir: Option<Seq<char>>,
    pub stdin: Option<Stream>,
    pub stdout: Option<Stream>,
    pub stderr: Option<Stream>,
}

/// The program with these arguments, and nothing else given.
pub open spec fn command_line(program: Seq<char>, args: Seq<Seq<char>>) -> CommandLine {
    CommandLine {
        program,
        args,
        envs: Seq::empty(),
        dir: None,
        stdin: None,
        stdout: None,
        stderr: None,
    }
}

impl CommandLine {
    /// The same command with an environment variable set.
    pub open spec fn with_env(self, name: Seq<char>, value: Seq<char>) -> CommandLine {
        CommandLine { envs: self.envs.push((name, value)), ..self }
    }

    /// The same command with further arguments.
    pub open spec fn with_args(self, args: Seq<Seq<char>>) -> CommandLine {
        CommandLine { args: self.args + args, ..self }
    }

    /// The same command, run in a directory.
    pub open spec fn within(self, dir: Seq<char>) -> CommandLine {
        CommandLine { dir: Some(dir), ..self }
    }

    /// The same command with its standard streams given.
    pub open spec fn with_streams(
        self,
        stdin: Option<Stream>,
        stdout: Option<Stream>,
        stderr: Option<Stream>,
    ) -> CommandLine {
        CommandLine { stdin, stdout, stderr, ..self }
    }

    /// The value that an environment variable is set to last.
    pub open spec fn env_value(self, name: Seq<char>) -> Option<Seq<char>> {
        last_value(self.envs, name)
    }
}

/// The second component of the last pair whose first one is `name`.
pub open spec fn last_value(envs: Seq<(Seq<char>, Seq<char>)>, name: Seq<char>) -> Option<Seq<char>>
    decreases envs.len(),
{
    if envs.len() == 0 {
        None
    } else if envs.last().0 == name {
        Some(envs.last().1)
    } else {
        last_value(envs.drop_last(), name)
    }
}

/// The contents of a list of pairs of strings.
pub open spec fn env_texts(envs: Seq<(String, String)>) -> Seq<(Seq<char>, Seq<char>)> {
    envs.map_values(|e: (String, String)| (e.0@, e.1@))
}

impl View for Command {
    type V = CommandLine;

    open spec fn view(&self) -> CommandLine {
        CommandLine {
            program: self.program@,
            args: texts(self.args@),
            envs: env_texts(self.envs@),
            dir: opt_text(self.dir),
            stdin: self.stdin,
            stdout: self.stdout,
            stderr: self.stderr,
        }
    }
}

impl Command {
    /// The program without any arguments.
    pub fn new(program: &str) -> (r: Self)
        ensures
            r@ == command_line(program@, Seq::empty()),
    {
        let r = Command {
            program: program.to_string(),
            args: Vec::new(),
            envs: Vec::new(),
            dir: None,
            stdin: None,
            stdout: None,
            stderr: None,
        };
        assert(texts(r.args@) =~= Seq::<Seq<char>>::empty());
        assert(env_texts(r.envs@) =~= Seq::<(Seq<char>, Seq<char>)>::empty());
        r
    }

    /// The same command with one more argument.
    pub fn arg(self, arg: &str) -> (r: Self)
        ensures
            r@ == (CommandLine { args: self@.args.push(arg@), ..self@ }),
    {
        let mut r = self;
        r.args.push(arg.to_string());
        assert(texts(r.args@) =~= texts(self.args@).push(arg@));
        r
    }

    /// The same command with further arguments.
    pub fn args(self, args: &[String]) -> (r: Self)
        ensures
            r@ == self@.with_args(texts(args@)),
    {
        let mut r = self;
        let mut i: usize = 0;
        while i < args.len()
            invariant
                i <= args@.len(),
                r@ == self@.with_args(texts(args@).take(i as int)),
            decreases args@.len() - i,
        {
            let ghost before = r@;
            r.args.push(args[i].clone());
            assert(r@ =~= (CommandLine { args: before.args.push(args@[i as int]@), ..before }));
            assert(texts(args@).take(i + 1) =~= texts(args@).take(i as int).push(
                args@[i as int]@,
            ));
            assert(self@.args + texts(args@).take(i as int).push(args@[i as int]@) =~= (self@.args
                + texts(args@).take(i as int)).push(args@[i as int]@));
            i += 1;
        }
        assert(texts(args@).take(args@.len() as int) =~= texts(args@));
        r
    }

    /// The same command with further arguments.
    pub fn arg_strs(self, args: &[&str]) -> (r: Self)
        ensures
            r@ == self@.with_args(strs(args@)),
    {
        let mut r = self;
        let mut i: usize = 0;
        while i < args.len()
            invariant
                i <= args@.len(),
                r@ == self@.with_args(strs(args@).take(i as int)),
            decreases args@.len() - i,
        {
            r = r.arg(args[i]);
            assert(strs(args@).take(i + 1) =~= strs(args@).take(i as int).push(args@[i as int]@));
            assert(self@.args + strs(args@).take(i as int).push(args@[i as int]@) =~= (self@.args
                + strs(args@).take(i as int)).push(args@[i as int]@));
            i += 1;
        }
        assert(strs(args@).take(args@.len() as int) =~= strs(args@));
        r
    }

    /// The same command with an environment variable set.
    pub fn env(self, name: &str, value: &str) -> (r: Self)
        ensures
            r@ == self@.with_env(name@, value@),
    {
        let mut r = self;
        r.envs.push((name.to_string(), value.to_string()));
        assert(env_texts(r.envs@) =~= env_texts(self.envs@).push((name@, value@)));
        r
    }

    /// The same command, run in a directory.
    pub fn current_dir(self, dir: &str) -> (r: Self)
        ensures
            r@ == self@.within(dir@),
    {
        let mut r = self;
        r.dir = Some(dir.to_string());
        r
    }

    /// The same command with its standard streams given.
    pub fn streams(
        self,
        stdin: Option<Stream>,
        stdout: Option<Stream>,
        stderr: Option<Stream>,
    ) -> (r: Self)
        ensures
            r@ == self@.with_streams(stdin, stdout, stderr),
    {
        let mut r = self;
        r.stdin = stdin;
        r.stdout = stdout;
        r.stderr = stderr;
        r
    }

    /// The value that an environment variable is set to for the command.
    pub fn env_value(&self, name: &str) -> (r: Option<String>)
        ensures
            r is Some <==> self@.env_value(name@) is Some,
            r matches Some(value) ==> self@.env_value(name@) == Some(value@),
    {
        let mut n: usize = self.envs.len();
        let ghost all = env_texts(self.envs@);
        assert(all.take(n as int) =~= all);
        while n > 0
            invariant
                n <= self.envs@.len(),
                all == env_texts(self.envs@),
                last_value(all, name@) == last_value(all.take(n as int), name@),
            decreases n,
        {
            assert(all.take(n as int).drop_last() =~= all.take(n - 1));
            assert(all.take(n as int).last() == all[n - 1]);
            if same_text(self.envs[n - 1].0.as_str(), name) {
                return Some(self.envs[n - 1].1.clone());
            }
            n -= 1;
        }
        None
    }
}

/// What a command left behind: its exit code, unless a signal ended it, and
/// what it printed.
#[derive(Debug)]
pub struct Output {
    pub code: Option<i32>,
    pub stdout: Vec<u8>,
    pub stderr: Vec<u8>,
}

/// An error that is found in the output of a command of a certain kind.
pub trait HasCommandError {
    /// How the kind of command is called.
    spec fn title_text() -> Seq<char>;

    /// What is shown of the error.
    spec fn error_text(&self) -> Seq<char>;

    /// How the kind of command is called.
    fn title() -> (r: String)
        ensures
            r@ == Self::title_text(),
    ;

    /// The message for the error.
    fn message(&self) -> (r: String)
        ensures
            r@ == self.error_text(),
    ;
}

/// Why a command did not do what it was run for.
#[derive(Debug)]
pub enum CommandError<T> {
    /// It could not be run, with the reason that the operating system gave.
    RunError(String),
    /// It failed, with what it left behind and how the command is shown.
    Exit(Output, String),
    /// Its output holds an error.
    OtherError(T),
}

/// What `unescape::unescape` makes of a text.
pub uninterp spec fn unescaped(text: Seq<char>) -> Option<Seq<char>>;

/// `unescape::unescape` of the crate `unescape`: the text with its backslash
/// escapes resolved, and none where one of them is malformed. What it returns
/// for which text is left to the name `unescaped`.
#[verifier::external_body]
fn unescape(text: &str) -> (r: Option<String>)
    ensures
        match r {
            Some(t) => unescaped(text@) == Some(t@),
            None => unescaped(text@) is None,
        },
{
    unescape::unescape(text)
}

/// How a command is shown that was written down with escapes.
pub open spec fn shown_command(text: Seq<char>, resolved: Option<Seq<char>>) -> Seq<char> {
    match resolved {
        Some(t) => t,
        None => text,
    }
}

/// What is shown of a command of the given kind that failed.
pub open spec fn exit_text(
    title: Seq<char>,
    code: Option<i32>,
    command: Seq<char>,
    stderr: Seq<u8>,
) -> Seq<char> {
    title + " command resulted in a bad exit code: "@ + shown_code(code)
        + ".\nThe failed command is provided below:\n"@ + command
        + "\nThe stderr output is provided below:\n"@ + shown_bytes(stderr)
}

/// The message for a command of the given kind that failed, where `command` is
/// how the command is shown.
pub fn exit_message(title: &str, code: Option<i32>, command: &str, stderr: &[u8]) -> (r: String)
    ensures
        r@ == exit_text(title@, code, command@, stderr@),
{
    title.to_string().concat(" command resulted in a bad exit code: ").concat(
        code_text(code).as_str(),
    ).concat(".\nThe failed command is provided below:\n").concat(command).concat(
        "\nThe stderr output is provided below:\n",
    ).concat(bytes_text(stderr).as_str())
}

/// What is shown of a `CommandError`.
pub open spec fn command_error_text<T: HasCommandError>(e: CommandError<T>) -> Seq<char> {
    match e {
        CommandError::RunError(err) => "Failed to run "@ + T::title_text() + " command: "@ + err@,
        CommandError::Exit(output, cmd) => exit_text(
            T::title_text(),
            output.code,
            shown_command(cmd@, unescaped(cmd@)),
            output.stderr@,
        ),
        CommandError::OtherError(err) => err.error_text(),
    }
}

impl<T: HasCommandError> CommandError<T> {
    /// The message for this error.
    pub fn message(&self) -> (r: String)
        ensures
            r@ == command_error_text(*self),
    {
        match self {
            CommandError::RunError(err) => {
                "Failed to run ".to_string().concat(T::title().as_str()).concat(
                    " command: ",
                ).concat(err.as_str())
            },
            CommandError::Exit(output, cmd) => {
                let command = match unescape(cmd.as_str()) {
                    Some(text) => text,
                    None => cmd.clone(),
                };
                exit_message(
                    T::title().as_str(),
                    output.code,
                    command.as_str(),
                    output.stderr.as_slice(),
                )
            },
            CommandError::OtherError(err) => err.message(),
        }
    }
}

/// What comes of having run a command, of which `shown` is how it is shown:
/// its output where it exited with zero, and an error otherwise.
pub fn conclude<T>(outcome: Result<Output, String>, shown: String) -> (r: Result<
    Output,
    CommandError<T>,
>)
    ensures
        match outcome {
            Ok(output) if output.code == Some(0i32) => r == Ok::<Output, CommandError<T>>(output),
            Ok(output) => r == Err::<Output, CommandError<T>>(CommandError::Exit(output, shown)),
            Err(err) => r == Err::<Output, CommandError<T>>(CommandError::RunError(err)),
        },
{
    match outcome {
        Ok(output) => match output.code {
            Some(0) => Ok(output),
            _ => Err(CommandError::Exit(output, shown)),
        },
        Err(err) => Err(CommandError::RunError(err)),
    }
}

/// A command has succeeded exactly if it exited with zero, and then its output is handed
/// on as it is; a failure carries what the command left behind and how it is shown.
pub proof fn law_only_zero_is_success<T>(
    outcome: Result<Output, String>,
    shown: String,
    r: Result<Output, CommandError<T>>,
)
    requires
        call_ensures(conclude::<T>, (outcome, shown), r),
    ensures
        r is Ok <==> outcome is Ok && outcome->Ok_0.code == Some(0i32),
        r is Ok ==> r->Ok_0 == outcome->Ok_0,
        outcome is Ok && outcome->Ok_0.code != Some(0i32) ==> (r matches Err(
            CommandError::Exit(output, text),
        ) && output == outcome->Ok_0 && text == shown),
        outcome is Err ==> (r matches Err(CommandError::RunError(why)) && why == outcome->Err_0),
{
}

/// What is shown of a command that failed names the kind of command and how it exited,
/// the command, and what it printed as errors, in this order.
pub proof fn law_failure_shows_all_there_is(
    title: &str,
    code: Option<i32>,
    command: &str,
    stderr: &[u8],
    r: String,
)
    requires
        call_ensures(exit_message, (title, code, command, stderr), r),
    ensures
        title@.is_prefix_of(r@),
        shown_bytes(stderr@).is_suffix_of(r@),
        exists|i: int, j: int|
            title@.len() <= i && #[trigger] occurs_at(shown_code(code), r@, i) && i + shown_code(
                code,
            ).len() <= j && #[trigger] occurs_at(command@, r@, j) && j + command@.len()
                <= r@.len() - shown_bytes(stderr@).len(),
{
    let a = title@ + " command resulted in a bad exit code: "@;
    let b = a + shown_code(code);
    let c = b + ".\nThe failed command is provided below:\n"@;
    let d = c + command@;
    let e = d + "\nThe stderr output is provided below:\n"@;
    assert(r@ == e + shown_bytes(stderr@));
    assert(r@.subrange(0, title@.len() as int) =~= title@);
    assert(r@.subrange(e.len() as int, r@.len() as int) =~= shown_bytes(stderr@));
    assert(r@.subrange(a.len() as int, b.len() as int) =~= shown_code(code));
    assert(r@.subrange(c.len() as int, d.len() as int) =~= command@);
    assert(occurs_at(shown_code(code), r@, a.len() as int));
    assert(occurs_at(command@, r@, c.len() as int));
}

/// The value of a variable is the one that it was set to last, and setting one variable
/// leaves all others alone.
pub proof fn law_last_value_counts(
    line: CommandLine,
    name: Seq<char>,
    value: Seq<char>,
    other: Seq<char>,
)
    ensures
        line.with_env(name, value).env_value(name) == Some(value),
        other != name ==> line.with_env(name, value).env_value(other) == line.env_value(other),
{
    let envs = line.with_env(name, value).envs;
    assert(envs.drop_last() =~= line.envs);
}

/// Arguments are put behind those that are there, and nothing else of a command changes.
pub proof fn law_arguments_are_put_behind(
    command: Command,
    arg: &str,
    args: &[String],
    strings: &[&str],
    one: Command,
    all: Command,
    each: Command,
)
    requires
        call_ensures(Command::arg, (command, arg), one),
        call_ensures(Command::args, (command, args), all),
        call_ensures(Command::arg_strs, (command, strings), each),
    ensures
        texts(one.args@) == texts(command.args@).push(arg@),
        texts(all.args@) == texts(command.args@) + texts(args@),
        texts(each.args@) == texts(command.args@) + strs(strings@),
        one.program@ == command.program@ && all.program@ == command.program@ && each.program@
            == command.program@,
        env_texts(one.envs@) == env_texts(command.envs@) && env_texts(all.envs@) == env_texts(
            command.envs@,
        ) && env_texts(each.envs@) == env_texts(command.envs@),
{
    assert(one@.args == texts(one.args@));
    assert(all@.args == texts(all.args@));
    assert(each@.args == texts(each.args@));
    assert(command@.args == texts(command.args@));
    assert(one@.program == one.program@ && all@.program == all.program@ && each@.program
        == each.program@ && command@.program == command.program@);
    assert(one@.envs == env_texts(one.envs@) && all@.envs == env_texts(all.envs@) && each@.envs
        == env_texts(each.envs@) && command@.envs == env_texts(command.envs@));
}

/// Each stream leads where it was said to, a directory is the one that was given, and a
/// variable is set behind the others. The arguments stay as they are.
pub proof fn law_settings_are_those_given(
    command: Command,
    stdin: Option<Stream>,
    stdout: Option<Stream>,
    stderr: Option<Stream>,
    dir: &str,
    name: &str,
    value: &str,
    led: Command,
    placed: Command,
    set: Command,
)
    requires
        call_ensures(Command::streams, (command, stdin, stdout, stderr), led),
        call_ensures(Command::current_dir, (command, dir), placed),
        call_ensures(Command::env, (command, name, value), set),
    ensures
        led.stdin == stdin && led.stdout == stdout && led.stderr == stderr,
        placed.dir is Some && placed.dir->0@ == dir@,
        set@.env_value(name@) == Some(value@),
        texts(led.args@) == texts(command.args@),
        texts(placed.args@) == texts(command.args@),
        texts(set.args@) == texts(command.args@),
{
    assert(led@.stdin == led.stdin && led@.stdout == led.stdout && led@.stderr == led.stderr);
    assert(placed@.dir == opt_text(placed.dir));
    assert(set@.envs.last() == (name@, value@));
    assert(led@.args == texts(led.args@) && placed@.args == texts(placed.args@) && set@.args
        == texts(set.args@) && command@.args == texts(command.args@));
}

} // verus!
