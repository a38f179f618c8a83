//! The builder that the `Builder` derive produces for a `Command` struct,
//! written out by hand.

use vstd::prelude::*;

verus! {

/// The text of each string in a sequence.
pub open spec fn texts(v: Seq<String>) -> Seq<Seq<char>> {
    v.map_values(|s: String| s@)
}

/// The text of an optional string.
pub open spec fn opt_text(o: Option<String>) -> Option<Seq<char>> {
    match o {
        Some(s) => Some(s@),
        None => None,
    }
}

/// A command line: the executable, its arguments, its environment and an
/// optional working directory.
#[derive(Debug)]
pub struct Command {
    executable: String,
    args: Vec<String>,
    env: Vec<String>,
    current_dir: Option<String>,
}

/// What a `Command` holds.
pub struct CommandModel {
    pub executable: Seq<char>,
    pub args: Seq<Seq<char>>,
    pub env: Seq<Seq<char>>,
    pub current_dir: Option<Seq<char>>,
}

impl View for Command {
    type V = CommandModel;

    closed spec fn view(&self) -> CommandModel {
        CommandModel {
            executable: self.executable@,
            args: texts(self.args@),
            env: texts(self.env@),
            current_dir: opt_text(self.current_dir),
        }
    }
}

/// Collects the parts of a `Command` one call at a time.
#[derive(Debug)]
pub struct CommandBuilder {
    executable: std::option::Option<String>,
    args: Vec<String>,
    env: Vec<String>,
    current_dir: Option<String>,
}

/// What a `CommandBuilder` holds so far.
pub struct CommandBuilderModel {
    pub executable: Option<Seq<char>>,
    pub args: Seq<Seq<char>>,
    pub env: Seq<Seq<char>>,
    pub current_dir: Option<Seq<char>>,
}

impl View for CommandBuilder {
    type V = CommandBuilderModel;

    closed spec fn view(&self) -> CommandBuilderModel {
        CommandBuilderModel {
            executable: opt_text(self.executable),
            args: texts(self.args@),
            env: texts(self.env@),
            current_dir: opt_text(self.current_dir),
        }
    }
}

/// A builder with nothing set.
pub open spec fn fresh_builder() -> CommandBuilderModel {
    CommandBuilderModel { executable: None, args: Seq::empty(), env: Seq::empty(), current_dir: None }
}

/// The command that `build` makes from what a builder holds: `None` while no
/// executable is set; else the executable, the arguments, the environment
/// and the working directory as they were set.
pub open spec fn built(m: CommandBuilderModel) -> Option<CommandModel> {
    match m.executable {
        Some(executable) => Some(
            CommandModel { executable, args: m.args, env: m.env, current_dir: m.current_dir },
        ),
        None => None,
    }
}

impl Command {
    /// A builder with nothing set: no executable, no arguments, no
    /// environment and no working directory.
    pub fn builder() -> (b: CommandBuilder)
        ensures
            b@ == fresh_builder(),
    {
        let b = CommandBuilder {
            executable: std::option::Option::None,
            args: Vec::new(),
            env: Vec::new(),
            current_dir: std::option::Option::None,
        };
        assert(texts(b.args@) =~= Seq::empty());
        b
    }
}

impl CommandBuilder {
    /// Sets the executable, replacing any earlier one.
    pub fn executable(&mut self, executable: String) -> (r: &mut Self)
        ensures
            r@ == (CommandBuilderModel { executable: Some(executable@), ..old(self)@ }),
            *final(self) == *final(r),
    {
        self.executable = std::option::Option::Some(executable);
        self
    }

    /// Sets the whole list of arguments, replacing the earlier list.
    pub fn args(&mut self, args: Vec<String>) -> (r: &mut Self)
        ensures
            r@ == (CommandBuilderModel { args: texts(args@), ..old(self)@ }),
            *final(self) == *final(r),
    {
        self.args = args;
        self
    }

    /// Sets the working directory, replacing any earlier one.
    pub fn current_dir(&mut self, current_dir: String) -> (r: &mut Self)
        ensures
            r@ == (CommandBuilderModel { current_dir: Some(current_dir@), ..old(self)@ }),
            *final(self) == *final(r),
    {
        self.current_dir = std::option::Option::Some(current_dir);
        self
    }

    /// Builds the command. It fails, with the message `Unspecify field`,
    /// exactly when no executable was set; the builder is left as it was.
    pub fn build(&mut self) -> (r: Result<Command, String>)
        ensures
            *final(self) == *old(self),
            r is Ok <==> built(old(self)@) is Some,
            r matches Ok(c) ==> built(old(self)@) == Some(c@),
            r matches Err(e) ==> e@ == "Unspecify field"@,
    {
        if false || self.executable.is_none() {
            let msg = "Unspecify field";
            proof {
                reveal_strlit("Unspecify field");
            }
            return std::result::Result::Err(msg.to_owned());
        }
        let executable = self.executable.clone().unwrap();
        let args = self.args.clone();
        let env = self.env.clone();
        let current_dir = self.current_dir.clone();
        assert(args@ == self.args@);
        assert(env@ == self.env@);
        std::result::Result::Ok(Command { executable, args, env, current_dir })
    }

    /// Appends one argument.
    pub fn arg(&mut self, value: String) -> (r: &mut Self)
        ensures
            r@ == (CommandBuilderModel { args: old(self)@.args.push(value@), ..old(self)@ }),
            *final(self) == *final(r),
    {
        let ghost before = self.args@;
        self.args.push(value);
        assert(texts(self.args@) =~= texts(before).push(value@));
        self
    }

    /// Appends one environment entry.
    pub fn env(&mut self, value: String) -> (r: &mut Self)
        ensures
            r@ == (CommandBuilderModel { env: old(self)@.env.push(value@), ..old(self)@ }),
            *final(self) == *final(r),
    {
        let ghost before = self.env@;
        self.env.push(value);
        assert(texts(self.env@) =~= texts(before).push(value@));
        self
    }
}

/// A builder that has not been given an executable does not build.
pub proof fn lemma_fresh_builder_does_not_build()
    ensures
        built(fresh_builder()) is None,
{
}

/// Once an executable is set, `build` succeeds, and the command holds that
/// executable and exactly the other parts as they were set.
pub proof fn lemma_executable_makes_build_succeed(m: CommandBuilderModel, executable: Seq<char>)
    ensures
        built(CommandBuilderModel { executable: Some(executable), ..m }) == Some(
            CommandModel {
                executable,
                args: m.args,
                env: m.env,
                current_dir: m.current_dir,
            },
        ),
{
}

/// Each `arg` appends one argument to the command that `build` makes, after
/// those set before it.
pub proof fn lemma_arg_appends(m: CommandBuilderModel, a: Seq<char>)
    requires
        built(m) is Some,
    ensures
        built(CommandBuilderModel { args: m.args.push(a), ..m })->Some_0.args
            == built(m)->Some_0.args.push(a),
{
}

} // verus!
