use vstd::prelude::*;
use vstd::string::StringExecFns;
use std::time::{Duration, Instant};

verus! {

#[verifier::external_type_specification]
#[verifier::external_body]
pub struct ExInstant(std::time::Instant);

#[verifier::external_type_specification]
#[verifier::external_body]
pub struct ExAnyhowError(anyhow::Error);

/// Relies on `Instant::now`: the current instant of a monotonic clock.
#[verifier::external_body]
fn instant_now() -> (r: Instant) {
    Instant::now()
}

/// Relies on `Instant::elapsed`: the time passed since `start`.
#[verifier::external_body]
fn elapsed_since(start: &Instant) -> (r: Duration) {
    start.elapsed()
}

/// The whitespace-separated words of `s`, in order.
pub uninterp spec fn whitespace_words(s: Seq<char>) -> Seq<Seq<char>>;

/// Relies on `str::split_whitespace`: the words of `s` in order, none in an empty string.
#[verifier::external_body]
fn split_words(s: &str) -> (r: Vec<String>)
    ensures
        r@.map_values(|w: String| w@) == whitespace_words(s@),
        s@.len() == 0 ==> r@.len() == 0,
{
    s.split_whitespace().map(|w| w.to_owned()).collect()
}

/// Errors of command handling.
#[derive(Debug)]
pub enum CommandError {
    ExpectedCommandName,
    CommandNotFound,
    /// The named required argument is missing.
    ExpectedRequiredArg(String),
    TooManyArguments,
    InvalidArgument(String),
    /// The exit command was called.
    Exit,
    NoData,
    NoPrompt,
    Any(anyhow::Error),
}

/// The kind of value an argument takes.
#[derive(Debug, Clone, Copy, PartialEq, Eq, Structural)]
pub enum ArgType {
    Bool,
    Number,
    String,
}

/// A named argument of a command.
#[derive(Debug)]
pub struct Arg {
    pub name: String,
    pub arg_type: ArgType,
}

impl Arg {
    pub fn new(name: &str, arg_type: ArgType) -> (r: Arg)
        ensures
            r.name@ == name@,
            r.arg_type == arg_type,
    {
        Arg { name: name.to_owned(), arg_type }
    }

    pub fn get_name(&self) -> (r: &String)
        ensures
            r == self.name,
    {
        &self.name
    }

    pub fn get_type(&self) -> (r: ArgType)
        ensures
            r == self.arg_type,
    {
        self.arg_type
    }
}

/// The parts of a usage line naming `args`, each between `open` and `close`.
pub open spec fn wrapped(args: Seq<Arg>, open: Seq<char>, close: Seq<char>) -> Seq<Seq<char>> {
    args.map_values(|a: Arg| open + a.name@ + close)
}

/// `parts` joined with single spaces.
pub open spec fn joined(parts: Seq<Seq<char>>) -> Seq<char>
    decreases parts.len(),
{
    if parts.len() == 0 {
        Seq::empty()
    } else if parts.len() == 1 {
        parts[0]
    } else {
        joined(parts.drop_last()) + seq![' '] + parts.last()
    }
}

/// The usage line of a command: its name, a space, the required arguments as `<name>`
/// and right after them the optional ones as `[name]`.
pub open spec fn usage(name: Seq<char>, required: Seq<Arg>, optional: Seq<Arg>) -> Seq<char> {
    name + seq![' '] + joined(wrapped(required, seq!['<'], seq!['>'])) + joined(
        wrapped(optional, seq!['['], seq![']']),
    )
}

/// Appends to `out` the names of `args`, each between `open` and `close`, joined with spaces.
fn append_joined(out: &mut String, args: &Vec<Arg>, open: &str, close: &str)
    ensures
        final(out)@ == old(out)@ + joined(wrapped(args@, open@, close@)),
{
    let ghost start = out@;
    let ghost parts = wrapped(args@, open@, close@);
    proof {
        reveal_strlit(" ");
        assert(parts.take(0) =~= Seq::<Seq<char>>::empty());
        assert(start =~= start + joined(parts.take(0)));
    }
    let mut i: usize = 0;
    while i < args.len()
        invariant
            i <= args@.len(),
            parts == wrapped(args@, open@, close@),
            out@ == start + joined(parts.take(i as int)),
        decreases args@.len() - i,
    {
        let ghost before = out@;
        if i > 0 {
            out.append(" ");
        }
        out.append(open);
        out.append(args[i].name.as_str());
        out.append(close);
        proof {
            reveal_strlit(" ");
            let next = parts.take(i + 1);
            assert(next.drop_last() =~= parts.take(i as int));
            assert(next.last() == open@ + args@[i as int].name@ + close@);
            if i == 0 {
                assert(next.len() == 1);
                assert(out@ =~= start + joined(next));
            } else {
                assert(out@ =~= start + joined(next));
            }
        }
        i = i + 1;
    }
    assert(parts.take(args@.len() as int) =~= parts);
}

/// A command: a name, a description, its arguments and the handler that runs it.
pub struct Command<H> {
    name: String,
    description: String,
    required_args: Vec<Arg>,
    optional_args: Vec<Arg>,
    callback: H,
}

impl<H> Command<H> {
    pub closed spec fn name_view(&self) -> Seq<char> {
        self.name@
    }

    pub closed spec fn description_view(&self) -> Seq<char> {
        self.description@
    }

    pub closed spec fn required_view(&self) -> Seq<Arg> {
        self.required_args@
    }

    pub closed spec fn optional_view(&self) -> Seq<Arg> {
        self.optional_args@
    }

    pub closed spec fn callback_view(&self) -> H {
        self.callback
    }

    pub fn new(name: &str, description: &str, callback: H) -> (r: Self)
        ensures
            r.name_view() == name@,
            r.description_view() == description@,
            r.required_view().len() == 0,
            r.optional_view().len() == 0,
            r.callback_view() == callback,
    {
        Command {
            name: name.to_owned(),
            description: description.to_owned(),
            required_args: Vec::new(),
            optional_args: Vec::new(),
            callback,
        }
    }

    pub fn with_optional_arguments(
        name: &str,
        description: &str,
        optional_args: Vec<Arg>,
        callback: H,
    ) -> (r: Self)
        ensures
            r.name_view() == name@,
            r.description_view() == description@,
            r.required_view().len() == 0,
            r.optional_view() == optional_args@,
            r.callback_view() == callback,
    {
        Command {
            name: name.to_owned(),
            description: description.to_owned(),
            required_args: Vec::new(),
            optional_args,
            callback,
        }
    }

    pub fn with_required_arguments(
        name: &str,
        description: &str,
        required_args: Vec<Arg>,
        callback: H,
    ) -> (r: Self)
        ensures
            r.name_view() == name@,
            r.description_view() == description@,
            r.required_view() == required_args@,
            r.optional_view().len() == 0,
            r.callback_view() == callback,
    {
        Command {
            name: name.to_owned(),
            description: description.to_owned(),
            required_args,
            optional_args: Vec::new(),
            callback,
        }
    }

    pub fn with_arguments(
        name: &str,
        description: &str,
        required_args: Vec<Arg>,
        optional_args: Vec<Arg>,
        callback: H,
    ) -> (r: Self)
        ensures
            r.name_view() == name@,
            r.description_view() == description@,
            r.required_view() == required_args@,
            r.optional_view() == optional_args@,
            r.callback_view() == callback,
    {
        Command {
            name: name.to_owned(),
            description: description.to_owned(),
            required_args,
            optional_args,
            callback,
        }
    }

    pub fn get_name(&self) -> (r: &String)
        ensures
            r@ == self.name_view(),
    {
        &self.name
    }

    pub fn get_description(&self) -> (r: &String)
        ensures
            r@ == self.description_view(),
    {
        &self.description
    }

    pub fn get_required_args(&self) -> (r: &Vec<Arg>)
        ensures
            r@ == self.required_view(),
    {
        &self.required_args
    }

    pub fn get_optional_args(&self) -> (r: &Vec<Arg>)
        ensures
            r@ == self.optional_view(),
    {
        &self.optional_args
    }

    pub fn get_callback(&self) -> (r: &H)
        ensures
            *r == self.callback_view(),
    {
        &self.callback
    }

    /// The usage line, such as `send <address> <amount>[fee]`.
    pub fn get_usage(&self) -> (r: String)
        ensures
            r@ == usage(self.name_view(), self.required_view(), self.optional_view()),
    {
        proof {
            reveal_strlit(" ");
            reveal_strlit("<");
            reveal_strlit(">");
            reveal_strlit("[");
            reveal_strlit("]");
            assert(" "@ =~= seq![' ']);
            assert("<"@ =~= seq!['<']);
            assert(">"@ =~= seq!['>']);
            assert("["@ =~= seq!['[']);
            assert("]"@ =~= seq![']']);
        }
        let mut out = self.name.clone();
        out.append(" ");
        append_joined(&mut out, &self.required_args, "<", ">");
        append_joined(&mut out, &self.optional_args, "[", "]");
        assert(out@ =~= usage(self.name_view(), self.required_view(), self.optional_view()));
        out
    }
}

/// The index of the first command in `commands` named `name`, if any.
pub open spec fn first_named<H>(commands: Seq<Command<H>>, name: Seq<char>) -> Option<int> {
    if exists|i: int| 0 <= i < commands.len() && commands[i].name_view() == name {
        Some(
            choose|i: int|
                0 <= i < commands.len() && commands[i].name_view() == name && forall|j: int|
                    0 <= j < i ==> commands[j].name_view() != name,
        )
    } else {
        None
    }
}

/// The registered commands, with the data and the prompt that their handlers use.
pub struct CommandManager<T, P, H> {
    commands: Vec<Command<H>>,
    data: Option<T>,
    prompt: Option<P>,
    running_since: Instant,
}

impl<T, P, H> CommandManager<T, P, H> {
    pub closed spec fn commands_view(&self) -> Seq<Command<H>> {
        self.commands@
    }

    pub closed spec fn data_view(&self) -> Option<T> {
        self.data
    }

    pub closed spec fn prompt_view(&self) -> Option<P> {
        self.prompt
    }

    pub fn new(data: Option<T>) -> (r: Self)
        ensures
            r.commands_view().len() == 0,
            r.data_view() == data,
            r.prompt_view() is None,
    {
        CommandManager { commands: Vec::new(), data, prompt: None, running_since: instant_now() }
    }

    /// A manager with the commands `help`, `version` and `exit`, run by the given handlers.
    pub fn default(help: H, version: H, exit: H) -> (r: Self)
        ensures
            r.commands_view().len() == 3,
            r.commands_view()[0].name_view() == "help"@,
            r.commands_view()[0].required_view().len() == 0,
            r.commands_view()[0].optional_view().len() == 1,
            r.commands_view()[0].optional_view()[0].name@ == "command"@,
            r.commands_view()[0].optional_view()[0].arg_type == ArgType::String,
            r.commands_view()[0].callback_view() == help,
            r.commands_view()[1].name_view() == "version"@,
            r.commands_view()[1].required_view().len() == 0,
            r.commands_view()[1].optional_view().len() == 0,
            r.commands_view()[1].callback_view() == version,
            r.commands_view()[2].name_view() == "exit"@,
            r.commands_view()[2].required_view().len() == 0,
            r.commands_view()[2].optional_view().len() == 0,
            r.commands_view()[2].callback_view() == exit,
            r.data_view() is None,
            r.prompt_view() is None,
    {
        let mut zelf = CommandManager::new(None);
        let mut help_args: Vec<Arg> = Vec::new();
        help_args.push(Arg::new("command", ArgType::String));
        zelf.add_command(Command::with_optional_arguments("help", "Show this help", help_args, help));
        zelf.add_command(Command::new("version", "Show the current version", version));
        zelf.add_command(Command::new("exit", "Shutdown the daemon", exit));
        zelf
    }

    pub fn set_data(&mut self, data: Option<T>)
        ensures
            final(self).data_view() == data,
            final(self).commands_view() == old(self).commands_view(),
            final(self).prompt_view() == old(self).prompt_view(),
    {
        self.data = data;
    }

    pub fn get_data(&self) -> (r: Result<&T, CommandError>)
        ensures
            self.data_view() is Some ==> r is Ok && *r->Ok_0 == self.data_view()->Some_0,
            self.data_view() is None ==> r is Err && r->Err_0 is NoData,
    {
        match &self.data {
            Some(d) => Ok(d),
            None => Err(CommandError::NoData),
        }
    }

    pub fn get_optional_data(&self) -> (r: &Option<T>)
        ensures
            *r == self.data_view(),
    {
        &self.data
    }

    pub fn set_prompt(&mut self, prompt: Option<P>)
        ensures
            final(self).prompt_view() == prompt,
            final(self).commands_view() == old(self).commands_view(),
            final(self).data_view() == old(self).data_view(),
    {
        self.prompt = prompt;
    }

    pub fn get_prompt(&self) -> (r: Result<&P, CommandError>)
        ensures
            self.prompt_view() is Some ==> r is Ok && *r->Ok_0 == self.prompt_view()->Some_0,
            self.prompt_view() is None ==> r is Err && r->Err_0 is NoPrompt,
    {
        match &self.prompt {
            Some(p) => Ok(p),
            None => Err(CommandError::NoPrompt),
        }
    }

    pub fn add_command(&mut self, command: Command<H>)
        ensures
            final(self).commands_view() == old(self).commands_view().push(command),
            final(self).data_view() == old(self).data_view(),
            final(self).prompt_view() == old(self).prompt_view(),
    {
        self.commands.push(command);
    }

    pub fn get_commands(&self) -> (r: &Vec<Command<H>>)
        ensures
            r@ == self.commands_view(),
    {
        &self.commands
    }

    /// The first command named `name`.
    pub fn get_command(&self, name: &str) -> (r: Option<&Command<H>>)
        ensures
            match first_named(self.commands_view(), name@) {
                Some(i) => r is Some && *r->Some_0 == self.commands_view()[i],
                None => r is None,
            },
    {
        let target = name.to_owned();
        match self.find_command(&target) {
            Some(i) => Some(&self.commands[i]),
            None => None,
        }
    }

    fn find_command(&self, name: &String) -> (r: Option<usize>)
        ensures
            match r {
                Some(i) => i < self.commands_view().len() && self.commands_view()[i as int].name_view()
                    == name@ && first_named(self.commands_view(), name@) == Some(i as int),
                None => first_named(self.commands_view(), name@) is None,
            },
    {
        let mut i: usize = 0;
        while i < self.commands.len()
            invariant
                i <= self.commands@.len(),
                forall|j: int| 0 <= j < i ==> self.commands@[j].name@ != name@,
            decreases self.commands@.len() - i,
        {
            if self.commands[i].name == *name {
                proof {
                    assert(self.commands_view()[i as int].name_view() == name@);
                    let k = first_named(self.commands_view(), name@)->Some_0;
                    assert(0 <= k < self.commands@.len() && self.commands@[k].name@ == name@
                        && forall|j: int| 0 <= j < k ==> self.commands@[j].name@ != name@);
                    if k < i {
                        assert(self.commands@[k].name@ != name@);
                    } else if k > i {
                        assert(self.commands@[i as int].name@ != name@);
                    }
                }
                return Some(i);
            }
            i = i + 1;
        }
        None
    }

    /// The argument of `c` that the `k`-th word after the command name fills: the required
    /// arguments first, then the optional ones.
    pub open spec fn arg_at(c: Command<H>, k: int) -> Arg {
        if k < c.required_view().len() {
            c.required_view()[k]
        } else {
            c.optional_view()[k - c.required_view().len()]
        }
    }

    /// Matches a command line, given as its words, against the registered commands: the
    /// index of the command named by the first word, and each following word paired with
    /// the name of the argument it fills.
    pub fn parse_words(&self, words: &Vec<String>) -> (r: Result<(usize, Vec<(String, String)>), CommandError>)
        ensures
            words@.len() == 0 ==> r is Err && r->Err_0 is ExpectedCommandName,
            words@.len() > 0 && first_named(self.commands_view(), words@[0]@) is None ==> r is Err
                && r->Err_0 is CommandNotFound,
            words@.len() > 0 && first_named(self.commands_view(), words@[0]@) is Some ==> ({
                let i = first_named(self.commands_view(), words@[0]@)->Some_0;
                let c = self.commands_view()[i];
                let given = words@.len() - 1;
                &&& given < c.required_view().len() ==> r is Err && r->Err_0 is ExpectedRequiredArg
                    && r->Err_0->ExpectedRequiredArg_0@ == c.required_view()[given].name@
                &&& given > c.required_view().len() + c.optional_view().len() ==> r is Err
                    && r->Err_0 is TooManyArguments
                &&& c.required_view().len() <= given <= c.required_view().len()
                    + c.optional_view().len() ==> r is Ok && r->Ok_0.0 == i && r->Ok_0.1@.len()
                    == given && forall|k: int|
                    0 <= k < given ==> (#[trigger] r->Ok_0.1@[k]).0@ == Self::arg_at(c, k).name@
                        && r->Ok_0.1@[k].1@ == words@[k + 1]@
            }),
    {
        if words.len() == 0 {
            return Err(CommandError::ExpectedCommandName);
        }
        let idx = match self.find_command(&words[0]) {
            Some(i) => i,
            None => {
                return Err(CommandError::CommandNotFound);
            },
        };
        let command = &self.commands[idx];
        let given = words.len() - 1;
        let nreq = command.required_args.len();
        let nopt = command.optional_args.len();
        if given < nreq {
            return Err(CommandError::ExpectedRequiredArg(command.required_args[given].name.clone()));
        }
        if given - nreq > nopt {
            return Err(CommandError::TooManyArguments);
        }
        let mut pairs: Vec<(String, String)> = Vec::new();
        let mut k: usize = 0;
        while k < given
            invariant
                k <= given,
                given == words@.len() - 1,
                nreq == command.required_view().len(),
                nopt == command.optional_view().len(),
                nreq <= given <= nreq + nopt,
                pairs@.len() == k,
                forall|m: int|
                    0 <= m < k ==> (#[trigger] pairs@[m]).0@ == Self::arg_at(*command, m).name@
                        && pairs@[m].1@ == words@[m + 1]@,
            decreases given - k,
        {
            let name = if k < nreq {
                command.required_args[k].name.clone()
            } else {
                command.optional_args[k - nreq].name.clone()
            };
            pairs.push((name, words[k + 1].clone()));
            k = k + 1;
        }
        Ok((idx, pairs))
    }

    /// Splits `value` into words and matches them as `parse_words` does.
    pub fn parse_command(&self, value: &str) -> (r: Result<(usize, Vec<(String, String)>), CommandError>)
        ensures
            exists|words: Seq<String>|
                words.map_values(|w: String| w@) == whitespace_words(value@) && ({
                    &&& words.len() == 0 ==> r is Err && r->Err_0 is ExpectedCommandName
                    &&& words.len() > 0 && first_named(self.commands_view(), words[0]@) is None
                        ==> r is Err && r->Err_0 is CommandNotFound
                    &&& words.len() > 0 && first_named(self.commands_view(), words[0]@) is Some
                        ==> r is Ok ==> r->Ok_0.0 == first_named(
                        self.commands_view(),
                        words[0]@,
                    )->Some_0 && r->Ok_0.1@.len() == words.len() - 1
                }),
    {
        let words = split_words(value);
        self.parse_words(&words)
    }

    /// The lines shown by the help command: the usage of the command named `command`, or,
    /// with no name, a header, one line per command with its description, and a hint.
    pub fn help_lines(&self, command: Option<&str>) -> (r: Result<Vec<String>, CommandError>)
        ensures
            command is Some ==> match first_named(self.commands_view(), command->Some_0@) {
                Some(i) => r is Ok && r->Ok_0@.len() == 1 && r->Ok_0@[0]@ == "Usage: "@ + usage(
                    self.commands_view()[i].name_view(),
                    self.commands_view()[i].required_view(),
                    self.commands_view()[i].optional_view(),
                ),
                None => r is Err && r->Err_0 is CommandNotFound,
            },
            command is None ==> r is Ok && r->Ok_0@.len() == self.commands_view().len() + 2
                && r->Ok_0@[0]@ == "Available commands:"@ && (forall|k: int|
                0 <= k < self.commands_view().len() ==> (#[trigger] r->Ok_0@[k + 1])@ == "- "@
                    + self.commands_view()[k].name_view() + ": "@
                    + self.commands_view()[k].description_view()) && r->Ok_0@.last()@
                == "See how to use a command using /help <command>"@,
    {
        let mut lines: Vec<String> = Vec::new();
        match command {
            Some(name) => {
                let target = name.to_owned();
                match self.find_command(&target) {
                    Some(i) => {
                        let mut line = String::new();
                        line.append("Usage: ");
                        line.append(self.commands[i].get_usage().as_str());
                        lines.push(line);
                        Ok(lines)
                    },
                    None => Err(CommandError::CommandNotFound),
                }
            },
            None => {
                let mut header = String::new();
                header.append("Available commands:");
                lines.push(header);
                let mut k: usize = 0;
                while k < self.commands.len()
                    invariant
                        k <= self.commands@.len(),
                        lines@.len() == k + 1,
                        lines@[0]@ == "Available commands:"@,
                        forall|j: int|
                            0 <= j < k ==> (#[trigger] lines@[j + 1])@ == "- "@
                                + self.commands_view()[j].name_view() + ": "@
                                + self.commands_view()[j].description_view(),
                    decreases self.commands@.len() - k,
                {
                    let mut line = String::new();
                    line.append("- ");
                    line.append(self.commands[k].name.as_str());
                    line.append(": ");
                    line.append(self.commands[k].description.as_str());
                    lines.push(line);
                    proof {
                        assert(lines@[k as int + 1] == line);
                    }
                    k = k + 1;
                }
                let mut hint = String::new();
                hint.append("See how to use a command using /help <command>");
                lines.push(hint);
                Ok(lines)
            },
        }
    }

    /// The time passed since this manager was made.
    pub fn running_since(&self) -> (r: Duration) {
        elapsed_since(&self.running_since)
    }
}

} // verus!
