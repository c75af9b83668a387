use portable_pty::CommandBuilder;
use vstd::prelude::*;

verus! {

/// The size of a terminal: text rows and columns, and the size of a cell in
/// pixels (which some systems ignore).
#[derive(Clone, Copy, Debug, PartialEq, Eq, Structural)]
pub struct PtySize {
    pub rows: u16,
    pub cols: u16,
    pub pixel_width: u16,
    pub pixel_height: u16,
}

impl Default for PtySize {
    /// A classic 24 by 80 terminal with no pixel size.
    fn default() -> (size: Self)
        ensures
            size.rows == 24,
            size.cols == 80,
            size.pixel_width == 0,
            size.pixel_height == 0,
    {
        PtySize { rows: 24, cols: 80, pixel_width: 0, pixel_height: 0 }
    }
}

/// What a command is, mathematically: the program, its arguments in order,
/// the working directory if one was chosen, the environment assignments in
/// the order they were made, and the terminal size.
pub struct CommandView {
    pub program: Seq<char>,
    pub args: Seq<Seq<char>>,
    pub cwd: Option<Seq<char>>,
    pub env: Seq<(Seq<char>, Seq<char>)>,
    pub size: PtySize,
}

/// The command to start inside a pseudo-terminal. Tests inject any command
/// they like through it.
#[derive(Clone, Debug)]
pub struct PtyCommand {
    pub program: String,
    pub args: Vec<String>,
    pub cwd: Option<String>,
    pub env: Vec<(String, String)>,
    pub size: PtySize,
}

impl View for PtyCommand {
    type V = CommandView;

    open spec fn view(&self) -> CommandView {
        CommandView {
            program: self.program@,
            args: self.args.deep_view(),
            cwd: self.cwd.deep_view(),
            env: self.env.deep_view(),
            size: self.size,
        }
    }
}

/// The program run when the environment names no shell.
pub open spec fn fallback_shell() -> Seq<char> {
    seq!['/', 'b', 'i', 'n', '/', 's', 'h']
}

impl PtyCommand {
    /// A command that runs `program` with no arguments, in the current
    /// directory, with no extra environment, on a default-sized terminal.
    pub fn new(program: &str) -> (cmd: Self)
        ensures
            cmd@.program == program@,
            cmd@.args.len() == 0,
            (cmd@.cwd is None),
            cmd@.env.len() == 0,
            cmd@.size == (PtySize { rows: 24, cols: 80, pixel_width: 0, pixel_height: 0 }),
    {
        let cmd = PtyCommand {
            program: String::from_str(program),
            args: Vec::new(),
            cwd: None,
            env: Vec::new(),
            size: PtySize::default(),
        };
        assert(cmd@.args =~= Seq::<Seq<char>>::empty());
        assert(cmd@.env =~= Seq::<(Seq<char>, Seq<char>)>::empty());
        cmd
    }

    /// The user's login shell: the value of `SHELL` as the caller read it
    /// from the environment, or `/bin/sh` when it is not set.
    pub fn default_shell(shell: Option<String>) -> (cmd: Self)
        ensures
            cmd@.program == (match shell {
                Some(s) => s@,
                None => fallback_shell(),
            }),
            shell is None ==> cmd@.program == "/bin/sh"@,
            cmd@.args.len() == 0,
            (cmd@.cwd is None),
            cmd@.env.len() == 0,
            cmd@.size == (PtySize { rows: 24, cols: 80, pixel_width: 0, pixel_height: 0 }),
    {
        match shell {
            Some(s) => Self::new(s.as_str()),
            None => {
                let fallback = "/bin/sh";
                proof {
                    reveal_strlit("/bin/sh");
                }
                assert(fallback@ =~= fallback_shell());
                Self::new(fallback)
            },
        }
    }

    /// Appends one argument.
    pub fn arg(self, arg: &str) -> (cmd: Self)
        ensures
            cmd@ == (CommandView { args: self@.args.push(arg@), ..self@ }),
    {
        let mut cmd = self;
        cmd.args.push(String::from_str(arg));
        assert(cmd@.args =~= self@.args.push(arg@));
        cmd
    }

    /// Appends the arguments in order.
    pub fn args(self, args: &[&str]) -> (cmd: Self)
        ensures
            cmd@ == (CommandView { args: self@.args + args@.map_values(|a: &str| a@), ..self@ }),
    {
        let mut cmd = self;
        let mut i: usize = 0;
        while i < args.len()
            invariant
                i <= args.len(),
                cmd@ == (CommandView {
                    args: self@.args + args@.take(i as int).map_values(|a: &str| a@),
                    ..self@
                }),
            decreases args.len() - i,
        {
            let ghost before = cmd@.args;
            let next = String::from_str(args[i]);
            cmd.args.push(next);
            assert(cmd@.args =~= before.push(args@[i as int]@));
            assert(args@.take(i + 1).map_values(|a: &str| a@) =~= args@.take(
                i as int,
            ).map_values(|a: &str| a@).push(args@[i as int]@));
            i = i + 1;
        }
        assert(args@.take(args.len() as int) =~= args@);
        cmd
    }

    /// Chooses the working directory of the program.
    pub fn cwd(self, dir: &str) -> (cmd: Self)
        ensures
            cmd@ == (CommandView { cwd: Some(dir@), ..self@ }),
    {
        let mut cmd = self;
        cmd.cwd = Some(String::from_str(dir));
        cmd
    }

    /// Adds an environment assignment; a later one for the same key wins.
    pub fn env(self, key: &str, value: &str) -> (cmd: Self)
        ensures
            cmd@ == (CommandView { env: self@.env.push((key@, value@)), ..self@ }),
    {
        let mut cmd = self;
        cmd.env.push((String::from_str(key), String::from_str(value)));
        assert(cmd@.env =~= self@.env.push((key@, value@)));
        cmd
    }

    /// Chooses the size of the terminal.
    pub fn size(self, size: PtySize) -> (cmd: Self)
        ensures
            cmd@ == (CommandView { size, ..self@ }),
    {
        let mut cmd = self;
        cmd.size = size;
        cmd
    }
}

#[verifier::external_type_specification]
#[verifier::external_body]
pub struct ExCommandBuilder(portable_pty::CommandBuilder);

/// The argument vector that a `CommandBuilder` holds, program first, each
/// entry read as text.
pub uninterp spec fn builder_argv(builder: CommandBuilder) -> Seq<Seq<char>>;

/// The environment that a `CommandBuilder` hands the child: variable name to
/// value.
pub uninterp spec fn builder_env(builder: CommandBuilder) -> Map<Seq<char>, Seq<char>>;

/// The variables of a `CommandBuilder` that its caller set, as opposed to
/// those copied from the process environment when it was made: variable name
/// to value (the entries whose `is_from_base_env` flag is false).
pub uninterp spec fn builder_caller_env(builder: CommandBuilder) -> Map<Seq<char>, Seq<char>>;

/// The working directory that a `CommandBuilder` holds, if one was set.
pub uninterp spec fn builder_cwd(builder: CommandBuilder) -> Option<Seq<char>>;

/// `CommandBuilder::new`: the argument vector is the program alone and no
/// working directory is set, and the caller has set no variable yet. The
/// environment it starts from is a copy of the calling process's own, which
/// depends on that process, so its contents are not stated.
#[verifier::external_body]
fn builder_new(program: &str) -> (builder: CommandBuilder)
    ensures
        builder_argv(builder) == seq![program@],
        (builder_cwd(builder) is None),
        builder_caller_env(builder).dom().is_empty(),
{
    CommandBuilder::new(program)
}

/// `CommandBuilder::args`: appends each argument to the argument vector in
/// order and touches nothing else. The crate panics when the vector is empty
/// (a builder for the default program), so that is excluded.
#[verifier::external_body]
fn builder_push_args(builder: &mut CommandBuilder, args: &Vec<String>)
    requires
        builder_argv(*old(builder)).len() > 0,
    ensures
        builder_argv(*final(builder)) == builder_argv(*old(builder)) + args.deep_view(),
        builder_env(*final(builder)) == builder_env(*old(builder)),
        builder_caller_env(*final(builder)) == builder_caller_env(*old(builder)),
        builder_cwd(*final(builder)) == builder_cwd(*old(builder)),
{
    builder.args(args)
}

/// `CommandBuilder::cwd`: sets the working directory and touches nothing
/// else.
#[verifier::external_body]
fn builder_set_cwd(builder: &mut CommandBuilder, dir: &str)
    ensures
        builder_cwd(*final(builder)) == Some(dir@),
        builder_argv(*final(builder)) == builder_argv(*old(builder)),
        builder_env(*final(builder)) == builder_env(*old(builder)),
        builder_caller_env(*final(builder)) == builder_caller_env(*old(builder)),
{
    builder.cwd(dir)
}

/// `CommandBuilder::env`: sets one variable, replacing an earlier value of
/// it, and touches nothing else. Keys are compared as they are written, as on
/// Unix; on Windows the crate folds their case first.
#[verifier::external_body]
fn builder_set_env(builder: &mut CommandBuilder, key: &str, value: &str)
    ensures
        builder_env(*final(builder)) == builder_env(*old(builder)).insert(key@, value@),
        builder_caller_env(*final(builder)) == builder_caller_env(*old(builder)).insert(
            key@,
            value@,
        ),
        builder_argv(*final(builder)) == builder_argv(*old(builder)),
        builder_cwd(*final(builder)) == builder_cwd(*old(builder)),
{
    builder.env(key, value)
}

/// The variables that a list of assignments sets, each to the value of its
/// last assignment.
pub open spec fn env_assignments(env: Seq<(Seq<char>, Seq<char>)>) -> Map<Seq<char>, Seq<char>>
    decreases env.len(),
{
    if env.len() == 0 {
        Map::empty()
    } else {
        env_assignments(env.drop_last()).insert(env.last().0, env.last().1)
    }
}

/// Environment assignments, last one wins: a variable is set exactly when
/// some assignment names it, and its value is the one given by the last
/// assignment to it.
pub proof fn lemma_env_last_assignment_wins(env: Seq<(Seq<char>, Seq<char>)>)
    ensures
        forall|k: Seq<char>|
            #![trigger env_assignments(env).contains_key(k)]
            env_assignments(env).contains_key(k) <==> exists|i: int|
                0 <= i < env.len() && (#[trigger] env[i]).0 == k,
        forall|i: int|
            0 <= i < env.len() && (forall|l: int| i < l < env.len() ==> (#[trigger] env[l]).0 != env[i].0)
                ==> env_assignments(env)[(#[trigger] env[i]).0] == env[i].1,
    decreases env.len(),
{
    if env.len() > 0 {
        let prior = env.drop_last();
        let last = env.last();
        lemma_env_last_assignment_wins(prior);
        let m = env_assignments(env);
        assert(m == env_assignments(prior).insert(last.0, last.1));
        assert forall|k: Seq<char>| #![trigger m.contains_key(k)]
            m.contains_key(k) <==> exists|i: int| 0 <= i < env.len() && (#[trigger] env[i]).0 == k by {
            if k == last.0 {
                assert(env[env.len() - 1].0 == k);
            } else if m.contains_key(k) {
                assert(env_assignments(prior).contains_key(k));
                let i = choose|i: int| 0 <= i < prior.len() && (#[trigger] prior[i]).0 == k;
                assert(env[i] == prior[i]);
            } else if exists|i: int| 0 <= i < env.len() && (#[trigger] env[i]).0 == k {
                let i = choose|i: int| 0 <= i < env.len() && (#[trigger] env[i]).0 == k;
                assert(i < env.len() - 1);
                assert(prior[i] == env[i]);
            }
        }
        assert forall|i: int|
            0 <= i < env.len() && (forall|l: int| i < l < env.len() ==> (#[trigger] env[l]).0 != env[i].0)
                implies m[(#[trigger] env[i]).0] == env[i].1 by {
            if i < env.len() - 1 {
                assert(env[env.len() - 1].0 != env[i].0);
                assert(prior[i] == env[i]);
                assert forall|l: int| i < l < prior.len() implies (#[trigger] prior[l]).0 != prior[i].0 by {
                    assert(prior[l] == env[l]);
                }
            }
        }
    }
}

impl PtyCommand {
    /// The builder that spawns this command: program then arguments, the
    /// chosen working directory, and the calling process's environment with
    /// the command's assignments laid over it; the only variables the builder
    /// sets itself are the command's, each to its last assigned value.
    pub fn to_builder(&self) -> (builder: CommandBuilder)
        ensures
            builder_argv(builder) == seq![self@.program] + self@.args,
            builder_cwd(builder) == self@.cwd,
            exists|base: Map<Seq<char>, Seq<char>>|
                builder_env(builder) == base.union_prefer_right(env_assignments(self@.env)),
            builder_caller_env(builder) == env_assignments(self@.env),
            forall|k: Seq<char>|
                #![trigger builder_caller_env(builder).contains_key(k)]
                builder_caller_env(builder).contains_key(k) <==> exists|i: int|
                    0 <= i < self@.env.len() && (#[trigger] self@.env[i]).0 == k,
            forall|i: int|
                0 <= i < self@.env.len() && (forall|l: int|
                    i < l < self@.env.len() ==> (#[trigger] self@.env[l]).0 != self@.env[i].0)
                    ==> builder_caller_env(builder)[(#[trigger] self@.env[i]).0]
                    == self@.env[i].1,
    {
        let mut builder = builder_new(self.program.as_str());
        builder_push_args(&mut builder, &self.args);
        match &self.cwd {
            Some(dir) => builder_set_cwd(&mut builder, dir.as_str()),
            None => {},
        }
        let ghost base = builder_env(builder);
        assert(self@.env.take(0) =~= Seq::<(Seq<char>, Seq<char>)>::empty());
        let mut i: usize = 0;
        while i < self.env.len()
            invariant
                i <= self.env.len(),
                builder_argv(builder) == seq![self@.program] + self@.args,
                builder_cwd(builder) == self@.cwd,
                builder_env(builder) == base.union_prefer_right(
                    env_assignments(self@.env.take(i as int)),
                ),
                builder_caller_env(builder) == env_assignments(self@.env.take(i as int)),
            decreases self.env.len() - i,
        {
            let (key, value) = &self.env[i];
            builder_set_env(&mut builder, key.as_str(), value.as_str());
            assert(self@.env.take(i + 1).drop_last() =~= self@.env.take(i as int));
            assert(self@.env[i as int] == (key@, value@));
            assert(builder_env(builder) =~= base.union_prefer_right(
                env_assignments(self@.env.take(i + 1)),
            ));
            i = i + 1;
        }
        assert(self@.env.take(self.env.len() as int) =~= self@.env);
        proof {
            lemma_env_last_assignment_wins(self@.env);
        }
        builder
    }
}

#[verifier::external_type_specification]
#[verifier::external_body]
pub struct ExIoError(std::io::Error);

/// What `std::io::Error::other` makes of a message: an error of kind `Other`
/// that carries the message.
pub uninterp spec fn io_error_other(message: Seq<char>) -> std::io::Error;

/// `std::io::Error::other`, given the message as text.
#[verifier::external_body]
fn new_io_error(message: &str) -> (err: std::io::Error)
    ensures
        err == io_error_other(message@),
{
    std::io::Error::other(message)
}

/// Wraps the text of an error of the terminal crate as an I/O error of kind
/// `Other`.
pub fn to_io(message: &str) -> (err: std::io::Error)
    ensures
        err == io_error_other(message@),
{
    new_io_error(message)
}

/// The message given when the output of the terminal was already handed out.
pub open spec fn reader_taken_message() -> Seq<char> {
    "pty reader already taken"@
}

/// The message given when the input of the terminal was already handed out.
pub open spec fn writer_taken_message() -> Seq<char> {
    "pty writer already taken"@
}

/// A running pseudo-terminal: its control end `master`, the child process,
/// and the reading and writing ends of the terminal, each of which can be
/// handed out once.
pub struct PtyEngine<M, C, R, W> {
    master: M,
    child: C,
    reader: Option<R>,
    writer: Option<W>,
}

impl<M, C, R, W> PtyEngine<M, C, R, W> {
    /// The control end of the terminal.
    pub closed spec fn master_end(&self) -> M {
        self.master
    }

    /// The child process.
    pub closed spec fn child_process(&self) -> C {
        self.child
    }

    /// The reading end, while it has not been handed out.
    pub closed spec fn reader_slot(&self) -> Option<R> {
        self.reader
    }

    /// The writing end, while it has not been handed out.
    pub closed spec fn writer_slot(&self) -> Option<W> {
        self.writer
    }

    /// A freshly spawned terminal: both ends are still held.
    pub fn new(master: M, child: C, reader: R, writer: W) -> (engine: Self)
        ensures
            engine.master_end() == master,
            engine.child_process() == child,
            engine.reader_slot() == Some(reader),
            engine.writer_slot() == Some(writer),
    {
        PtyEngine { master, child, reader: Some(reader), writer: Some(writer) }
    }

    /// Hands out the reading end. A second call fails with
    /// "pty reader already taken" and changes nothing.
    pub fn take_reader(&mut self) -> (res: Result<R, std::io::Error>)
        ensures
            match old(self).reader_slot() {
                Some(r) => res == Ok::<R, std::io::Error>(r),
                None => res == Err::<R, std::io::Error>(io_error_other(reader_taken_message())),
            },
            old(self).reader_slot() is None ==> res == Err::<R, std::io::Error>(
                io_error_other("pty reader already taken"@),
            ),
            final(self).reader_slot() is None,
            final(self).writer_slot() == old(self).writer_slot(),
            final(self).master_end() == old(self).master_end(),
            final(self).child_process() == old(self).child_process(),
    {
        match self.reader.take() {
            Some(r) => Ok(r),
            None => Err(to_io("pty reader already taken")),
        }
    }

    /// Hands out the writing end. A second call fails with
    /// "pty writer already taken" and changes nothing.
    pub fn take_writer(&mut self) -> (res: Result<W, std::io::Error>)
        ensures
            match old(self).writer_slot() {
                Some(w) => res == Ok::<W, std::io::Error>(w),
                None => res == Err::<W, std::io::Error>(io_error_other(writer_taken_message())),
            },
            old(self).writer_slot() is None ==> res == Err::<W, std::io::Error>(
                io_error_other("pty writer already taken"@),
            ),
            final(self).writer_slot() is None,
            final(self).reader_slot() == old(self).reader_slot(),
            final(self).master_end() == old(self).master_end(),
            final(self).child_process() == old(self).child_process(),
    {
        match self.writer.take() {
            Some(w) => Ok(w),
            None => Err(to_io("pty writer already taken")),
        }
    }

    /// The reading end, borrowed for a read; fails with
    /// "pty reader already taken" once it has been handed out.
    pub fn reader_mut(&mut self) -> (res: Result<&mut R, std::io::Error>)
        ensures
            (res is Ok) == (old(self).reader_slot() is Some),
            res matches Ok(r) ==> *r == old(self).reader_slot()->0
                && final(self).reader_slot() == Some(*final(r)),
            res matches Err(e) ==> e == io_error_other(reader_taken_message())
                && final(self).reader_slot() is None,
            res matches Err(e) ==> e == io_error_other("pty reader already taken"@),
            final(self).writer_slot() == old(self).writer_slot(),
            final(self).master_end() == old(self).master_end(),
            final(self).child_process() == old(self).child_process(),
    {
        match self.reader.as_mut() {
            Some(r) => Ok(r),
            None => Err(to_io("pty reader already taken")),
        }
    }

    /// The writing end, borrowed for a write; fails with
    /// "pty writer already taken" once it has been handed out.
    pub fn writer_mut(&mut self) -> (res: Result<&mut W, std::io::Error>)
        ensures
            (res is Ok) == (old(self).writer_slot() is Some),
            res matches Ok(w) ==> *w == old(self).writer_slot()->0
                && final(self).writer_slot() == Some(*final(w)),
            res matches Err(e) ==> e == io_error_other(writer_taken_message())
                && final(self).writer_slot() is None,
            res matches Err(e) ==> e == io_error_other("pty writer already taken"@),
            final(self).reader_slot() == old(self).reader_slot(),
            final(self).master_end() == old(self).master_end(),
            final(self).child_process() == old(self).child_process(),
    {
        match self.writer.as_mut() {
            Some(w) => Ok(w),
            None => Err(to_io("pty writer already taken")),
        }
    }

    /// The control end, through which the terminal is resized and measured.
    pub fn master(&self) -> (m: &M)
        ensures
            *m == self.master_end(),
    {
        &self.master
    }

    /// The child process, borrowed to be killed or waited for.
    pub fn child_mut(&mut self) -> (c: &mut C)
        ensures
            *c == old(self).child_process(),
            final(self).child_process() == *final(c),
            final(self).master_end() == old(self).master_end(),
            final(self).reader_slot() == old(self).reader_slot(),
            final(self).writer_slot() == old(self).writer_slot(),
    {
        &mut self.child
    }
}

} // verus!
