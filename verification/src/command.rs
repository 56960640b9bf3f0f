//! The description of one invocation of an external program.

use vstd::prelude::*;

verus! {

/// One environment variable set for the child.
#[derive(Clone, Debug, PartialEq, Eq)]
pub struct EnvVar {
    pub name: String,
    pub value: String,
}

/// The mapping that a list of settings amounts to when they are applied in
/// order: a later setting of a name replaces an earlier one.
pub open spec fn env_map(vars: Seq<EnvVar>) -> Map<Seq<char>, Seq<char>>
    decreases vars.len(),
{
    if vars.len() == 0 {
        Map::empty()
    } else {
        env_map(vars.drop_last()).insert(vars.last().name@, vars.last().value@)
    }
}

/// What each string of `strings` holds.
pub open spec fn string_texts(strings: Seq<String>) -> Seq<Seq<char>> {
    strings.map_values(|s: String| s@)
}

/// What is to be run: the programs to try, in order, until one starts; the
/// arguments; the environment overrides; and what to write to the child's
/// standard input, if anything.
#[derive(Clone, Debug, PartialEq, Eq)]
pub struct CommandSpec {
    primary: String,
    fallbacks: Vec<String>,
    args: Vec<String>,
    env: Vec<EnvVar>,
    input: Option<Vec<u8>>,
}

/// `CommandSpec` as a mathematical value.
pub struct CommandSpecView {
    /// The programs to try, in order.
    pub candidates: Seq<Seq<char>>,
    pub args: Seq<Seq<char>>,
    pub env: Map<Seq<char>, Seq<char>>,
    pub input: Option<Seq<u8>>,
}

impl CommandSpecView {
    /// There is a program to try.
    pub open spec fn well_formed(self) -> bool {
        self.candidates.len() >= 1
    }
}

impl View for CommandSpec {
    type V = CommandSpecView;

    closed spec fn view(&self) -> CommandSpecView {
        CommandSpecView {
            candidates: seq![self.primary@] + string_texts(self.fallbacks@),
            args: string_texts(self.args@),
            env: env_map(self.env@),
            input: match self.input {
                Some(bytes) => Some(bytes@),
                None => None,
            },
        }
    }
}

impl CommandSpec {
    /// Every command has a program to try.
    pub proof fn law_command_is_well_formed(self)
        ensures
            self@.well_formed(),
    {
    }

    /// The command that runs `program` with no arguments, no environment
    /// overrides and no input.
    pub fn new(program: &str) -> (spec: CommandSpec)
        ensures
            spec@ == (CommandSpecView {
                candidates: seq![program@],
                args: seq![],
                env: Map::empty(),
                input: None,
            }),
    {
        let spec = CommandSpec {
            primary: program.to_owned(),
            fallbacks: Vec::new(),
            args: Vec::new(),
            env: Vec::new(),
            input: None,
        };
        assert(spec@.args =~= seq![]);
        spec
    }

    /// Adds `program` as the last candidate.
    pub fn fallback(self, program: &str) -> (spec: CommandSpec)
        ensures
            spec@ == (CommandSpecView { candidates: self@.candidates.push(program@), ..self@ }),
    {
        let mut spec = self;
        spec.fallbacks.push(program.to_owned());
        assert(spec@.candidates =~= self@.candidates.push(program@));
        spec
    }

    /// Adds `arg` as the last argument.
    pub fn arg(self, arg: &str) -> (spec: CommandSpec)
        ensures
            spec@ == (CommandSpecView { args: self@.args.push(arg@), ..self@ }),
    {
        let mut spec = self;
        spec.args.push(arg.to_owned());
        assert(spec@.args =~= self@.args.push(arg@));
        spec
    }

    /// Sets the environment variable `name` to `value` for the child.
    pub fn env(self, name: &str, value: &str) -> (spec: CommandSpec)
        ensures
            spec@ == (CommandSpecView { env: self@.env.insert(name@, value@), ..self@ }),
    {
        let mut spec = self;
        spec.env.push(EnvVar { name: name.to_owned(), value: value.to_owned() });
        assert(spec.env@.drop_last() =~= self.env@);
        spec
    }

    /// Makes `bytes` the input that is written to the child.
    pub fn input(self, bytes: Vec<u8>) -> (spec: CommandSpec)
        ensures
            spec@ == (CommandSpecView { input: Some(bytes@), ..self@ }),
    {
        let mut spec = self;
        spec.input = Some(bytes);
        spec
    }

    /// The number of candidates after the first.
    pub fn fallback_count(&self) -> (count: usize)
        ensures
            count + 1 == self@.candidates.len(),
    {
        self.fallbacks.len()
    }

    /// The candidate at `index`, if there is one.
    pub fn candidate(&self, index: usize) -> (program: Option<&String>)
        ensures
            match program {
                Some(name) => index < self@.candidates.len() && name@ == self@.candidates[
                    index as int],
                None => index >= self@.candidates.len(),
            },
    {
        if index == 0 {
            Some(&self.primary)
        } else if index - 1 < self.fallbacks.len() {
            Some(&self.fallbacks[index - 1])
        } else {
            None
        }
    }

    /// The arguments, in order.
    pub fn args(&self) -> (args: &Vec<String>)
        ensures
            string_texts(args@) == self@.args,
    {
        &self.args
    }

    /// The environment settings, to be applied in order.
    pub fn env_vars(&self) -> (vars: &Vec<EnvVar>)
        ensures
            env_map(vars@) == self@.env,
    {
        &self.env
    }

    /// The input to write to the child, if any.
    pub fn input_bytes(&self) -> (input: Option<&Vec<u8>>)
        ensures
            match input {
                Some(bytes) => self@.input == Some(bytes@),
                None => self@.input.is_none(),
            },
    {
        self.input.as_ref()
    }
}

} // verus!
