//! The command line: which command the arguments ask for, and what the
//! command does to the store.
//!
//! Nothing here prints, reads or writes. A command is carried out on the
//! repository's image; the reply says which lines to show and what to do on
//! disk.

use crate::builders::{LengthRange, PasswordBuilder};
use crate::charset::covers_all_classes;
use crate::decimal::{parse_version, version_of};
use crate::error::Error;
use crate::flags::GetFlags;
use crate::password::Password;
use crate::repository::{PasswordRepository, RepositoryView};
use crate::text::{enumerates, is_word, lowercased, text_of, to_lowercase, trim, trimmed};
use crate::version::{PasswordVersion, PasswordVersionView};
use vstd::prelude::*;

verus! {

/// What is wrong with the arguments of a command line.
#[derive(Debug, Clone, Copy, PartialEq, Eq, Structural)]
pub enum UsageError {
    /// There is no argument at all.
    NoSubcommand,
    /// The first argument is no command.
    UnknownSubcommand,
    /// The command needs the name of a password, and there is none.
    NoPasswordName,
    /// What follows `--version` is no number.
    IncorrectVersion,
}

/// Why a command line was not carried out.
#[derive(Debug, Clone, Copy, PartialEq, Eq, Structural)]
pub enum Failure {
    /// The arguments ask for nothing that can be done.
    Usage(UsageError),
    /// The store refused the command.
    Store(Error),
}

/// A command, with its arguments.
#[derive(Debug, Clone, PartialEq, Eq)]
pub enum Command {
    /// Show a password: its latest version, or the one that the flags name.
    Get { name: String, flags: GetFlags },
    /// Store a new password: the given value, or a generated one.
    New { name: String, value: Option<String> },
    /// Store one more version of a password: the given value, or a generated one.
    Update { name: String, value: Option<String> },
    /// Remove a password with all its versions.
    Remove { name: String },
    /// List the names of the passwords.
    List,
    /// Generate a password without storing it.
    Generate,
    /// Make the root directory.
    Init,
    /// Show how the program is used.
    Help,
}

/// A command, as mathematical values.
pub enum CommandView {
    Get { name: Seq<char>, version: Option<u32> },
    New { name: Seq<char>, value: Option<Seq<char>> },
    Update { name: Seq<char>, value: Option<Seq<char>> },
    Remove { name: Seq<char> },
    List,
    Generate,
    Init,
    Help,
}

impl View for Command {
    type V = CommandView;

    open spec fn view(&self) -> CommandView {
        match *self {
            Command::Get { name, flags } => CommandView::Get {
                name: name@,
                version: flags.version,
            },
            Command::New { name, value } => CommandView::New {
                name: name@,
                value: text_of(value),
            },
            Command::Update { name, value } => CommandView::Update {
                name: name@,
                value: text_of(value),
            },
            Command::Remove { name } => CommandView::Remove { name: name@ },
            Command::List => CommandView::List,
            Command::Generate => CommandView::Generate,
            Command::Init => CommandView::Init,
            Command::Help => CommandView::Help,
        }
    }
}

/// What the caller has to do on disk after a command.
#[derive(Debug, Clone, PartialEq, Eq)]
pub enum Effect {
    /// Nothing.
    Nothing,
    /// Make the root directory, if it is not there.
    CreateRoot,
    /// Write the secret to the file of this version, in the folder of its
    /// password; make the folder if it is not there.
    WriteVersion(PasswordVersion),
    /// Remove the folder of this password with everything in it.
    RemoveFolder(String),
    /// Show how the program is used.
    ShowDocumentation,
}

/// An effect, as mathematical values.
pub enum EffectView {
    Nothing,
    CreateRoot,
    WriteVersion(PasswordVersionView),
    RemoveFolder(Seq<char>),
    ShowDocumentation,
}

impl View for Effect {
    type V = EffectView;

    open spec fn view(&self) -> EffectView {
        match *self {
            Effect::Nothing => EffectView::Nothing,
            Effect::CreateRoot => EffectView::CreateRoot,
            Effect::WriteVersion(version) => EffectView::WriteVersion(version@),
            Effect::RemoveFolder(name) => EffectView::RemoveFolder(name@),
            Effect::ShowDocumentation => EffectView::ShowDocumentation,
        }
    }
}

/// What a command answers: the lines to show, and what to do on disk.
#[derive(Debug, Clone, PartialEq, Eq)]
pub struct Reply {
    pub lines: Vec<String>,
    pub effect: Effect,
}

/// A reply, as mathematical values.
pub struct ReplyView {
    pub lines: Seq<Seq<char>>,
    pub effect: EffectView,
}

/// The texts of a list of strings.
pub open spec fn texts(strings: Seq<String>) -> Seq<Seq<char>> {
    strings.map_values(|text: String| text@)
}

impl View for Reply {
    type V = ReplyView;

    open spec fn view(&self) -> ReplyView {
        ReplyView { lines: texts(self.lines@), effect: self.effect@ }
    }
}

/// The version that the flags of a `get` command ask for.
///
/// The flags are read from left to right. `--version` takes the argument
/// after it, which must be a number, and overrides what was asked before;
/// as the last argument it asks for the latest version. Any other argument
/// is passed over.
pub open spec fn flags_of(
    arguments: Seq<Seq<char>>,
    version: Option<u32>,
) -> Result<Option<u32>, UsageError>
    decreases arguments.len(),
{
    if arguments.len() == 0 {
        Ok(version)
    } else if arguments[0] == "--version"@ {
        if arguments.len() == 1 {
            Ok(None)
        } else if version_of(arguments[1]) is Some {
            flags_of(arguments.skip(2), version_of(arguments[1]))
        } else {
            Err(UsageError::IncorrectVersion)
        }
    } else {
        flags_of(arguments.skip(1), version)
    }
}

/// The arguments among the flags of a `get` command that are not
/// understood, and passed over: all but `--version` and what it takes.
pub open spec fn passed_over(arguments: Seq<Seq<char>>) -> Seq<Seq<char>>
    decreases arguments.len(),
{
    if arguments.len() == 0 {
        Seq::empty()
    } else if arguments[0] == "--version"@ {
        if arguments.len() == 1 {
            Seq::empty()
        } else {
            passed_over(arguments.skip(2))
        }
    } else {
        seq![arguments[0]] + passed_over(arguments.skip(1))
    }
}

/// The first argument among the flags of a `get` command that follows
/// `--version` and is no number, if there is one: the argument that makes
/// the flags incorrect.
pub open spec fn incorrect_of(arguments: Seq<Seq<char>>) -> Option<Seq<char>>
    decreases arguments.len(),
{
    if arguments.len() == 0 {
        None
    } else if arguments[0] == "--version"@ {
        if arguments.len() == 1 {
            None
        } else if version_of(arguments[1]) is Some {
            incorrect_of(arguments.skip(2))
        } else {
            Some(arguments[1])
        }
    } else {
        incorrect_of(arguments.skip(1))
    }
}

/// The flags are incorrect exactly when one of them is an incorrect
/// version.
pub proof fn lemma_incorrect_version(arguments: Seq<Seq<char>>, version: Option<u32>)
    ensures
        flags_of(arguments, version) is Err <==> incorrect_of(arguments) is Some,
        flags_of(arguments, version) matches Err(error) ==> error == UsageError::IncorrectVersion,
    decreases arguments.len(),
{
    if arguments.len() == 0 {
    } else if arguments[0] == "--version"@ {
        if arguments.len() > 1 && version_of(arguments[1]) is Some {
            lemma_incorrect_version(arguments.skip(2), version_of(arguments[1]));
        }
    } else {
        lemma_incorrect_version(arguments.skip(1), version);
    }
}

/// The arguments that follow the name of the password.
pub open spec fn after_name(arguments: Seq<Seq<char>>) -> Seq<Seq<char>> {
    if arguments.len() >= 2 {
        arguments.skip(2)
    } else {
        Seq::empty()
    }
}

/// The name of the password that a command is about: the second argument,
/// which must not be empty.
pub open spec fn name_of(arguments: Seq<Seq<char>>) -> Result<Seq<char>, UsageError> {
    if arguments.len() >= 2 && arguments[1].len() > 0 {
        Ok(arguments[1])
    } else {
        Err(UsageError::NoPasswordName)
    }
}

/// The value that a command gives for a password: the third argument, if
/// there is one.
pub open spec fn value_of(arguments: Seq<Seq<char>>) -> Option<Seq<char>> {
    if arguments.len() >= 3 {
        Some(arguments[2])
    } else {
        None
    }
}

/// The command that the arguments ask for.
pub open spec fn command_of(arguments: Seq<Seq<char>>) -> Result<CommandView, UsageError> {
    if arguments.len() == 0 {
        Err(UsageError::NoSubcommand)
    } else if arguments[0] == "get"@ {
        match name_of(arguments) {
            Ok(name) => match flags_of(after_name(arguments), None) {
                Ok(version) => Ok(CommandView::Get { name, version }),
                Err(error) => Err(error),
            },
            Err(error) => Err(error),
        }
    } else if arguments[0] == "new"@ {
        match name_of(arguments) {
            Ok(name) => Ok(CommandView::New { name, value: value_of(arguments) }),
            Err(error) => Err(error),
        }
    } else if arguments[0] == "update"@ {
        match name_of(arguments) {
            Ok(name) => Ok(CommandView::Update { name, value: value_of(arguments) }),
            Err(error) => Err(error),
        }
    } else if arguments[0] == "remove"@ || arguments[0] == "rm"@ {
        match name_of(arguments) {
            Ok(name) => Ok(CommandView::Remove { name }),
            Err(error) => Err(error),
        }
    } else if arguments[0] == "list"@ {
        Ok(CommandView::List)
    } else if arguments[0] == "gen"@ {
        Ok(CommandView::Generate)
    } else if arguments[0] == "init"@ {
        Ok(CommandView::Init)
    } else if arguments[0] == "help"@ {
        Ok(CommandView::Help)
    } else {
        Err(UsageError::UnknownSubcommand)
    }
}

/// An answer that confirms a removal: the word `yes`, in lowercase, once
/// the answer was trimmed and put in lowercase.
pub open spec fn confirmed_by(answer: Seq<char>) -> bool {
    lowercased(trimmed(answer)) == seq!['y', 'e', 's']
}

/// A secret that a builder with the bounds `range` may have made.
pub open spec fn generated_within(secret: Seq<char>, range: LengthRange) -> bool {
    range.min <= secret.len() <= range.max && covers_all_classes(secret)
}

/// What a lookup answers: the line of the version that was found.
pub open spec fn got(
    state: RepositoryView,
    name: Seq<char>,
    version: Option<u32>,
    answer: Result<ReplyView, Error>,
) -> bool {
    match state.lookup(name, version) {
        Ok(found) => answer == Ok::<ReplyView, Error>(
            ReplyView { lines: seq![found.password.line()], effect: EffectView::Nothing },
        ),
        Err(error) => answer == Err::<ReplyView, Error>(error),
    }
}

/// What storing a new password answers, and what it does to the store.
///
/// A given value is stored as it is, and nothing is shown. Without one a
/// secret is generated, and shown once it is stored. Either way a lookup
/// then finds what was written. A password that is there already is a
/// conflict. Under an empty name nothing is stored.
pub open spec fn created(
    before: RepositoryView,
    after: RepositoryView,
    range: LengthRange,
    name: Seq<char>,
    value: Option<Seq<char>>,
    answer: Result<ReplyView, Error>,
) -> bool {
    if name.len() == 0 {
        answer == Err::<ReplyView, Error>(Error::InvalidParameter) && after == before
    } else {
        created_under(before, after, range, name, value, answer)
    }
}

/// What storing a new password under a name that is not empty answers, and
/// what it does to the store.
pub open spec fn created_under(
    before: RepositoryView,
    after: RepositoryView,
    range: LengthRange,
    name: Seq<char>,
    value: Option<Seq<char>>,
    answer: Result<ReplyView, Error>,
) -> bool {
    match answer {
        Ok(reply) => {
            &&& !before.present(name)
            &&& reply.effect matches EffectView::WriteVersion(written)
            &&& written.password.name == name
            &&& written.version == 1
            &&& after == before.after_add(name, written.password.value)
            &&& after.lookup(name, None) == Ok::<PasswordVersionView, Error>(written)
            &&& match value {
                Some(given) => written.password.value == given && reply.lines.len() == 0,
                None => generated_within(written.password.value, range) && reply.lines
                    == seq![written.password.line()],
            }
        },
        Err(Error::Conflict) => before.present(name) && after == before,
        Err(Error::InvalidParameter) => value is None && range.min < 4 && after == before,
        Err(Error::Internal) => value is None && range.max >= 6 && after == before,
        Err(_) => false,
    }
}

/// What storing one more version answers, and what it does to the store.
/// Under an empty name nothing is stored.
pub open spec fn updated(
    before: RepositoryView,
    after: RepositoryView,
    range: LengthRange,
    name: Seq<char>,
    value: Option<Seq<char>>,
    answer: Result<ReplyView, Error>,
) -> bool {
    if name.len() == 0 {
        answer == Err::<ReplyView, Error>(Error::InvalidParameter) && after == before
    } else {
        updated_under(before, after, range, name, value, answer)
    }
}

/// What storing one more version under a name that is not empty answers,
/// and what it does to the store.
pub open spec fn updated_under(
    before: RepositoryView,
    after: RepositoryView,
    range: LengthRange,
    name: Seq<char>,
    value: Option<Seq<char>>,
    answer: Result<ReplyView, Error>,
) -> bool {
    match answer {
        Ok(reply) => {
            &&& before.present(name)
            &&& before.latest_version(name) < u32::MAX
            &&& reply.effect matches EffectView::WriteVersion(written)
            &&& written.password.name == name
            &&& written.version == before.latest_version(name) + 1
            &&& after == before.after_update(name, written.password.value)
            &&& after.lookup(name, None) == Ok::<PasswordVersionView, Error>(written)
            &&& match value {
                Some(given) => written.password.value == given && reply.lines.len() == 0,
                None => generated_within(written.password.value, range) && reply.lines
                    == seq![written.password.line()],
            }
        },
        Err(Error::NotFound) => !before.present(name) && after == before,
        Err(Error::InvalidParameter) => value is None && range.min < 4 && after == before,
        Err(Error::Internal) => {
            &&& after == before
            &&& (value is None && range.max >= 6) || (before.present(name)
                && before.latest_version(name) == u32::MAX)
        },
        Err(_) => false,
    }
}

/// What a removal answers, and what it does to the store: the password goes
/// when the answer confirms it, and stays otherwise. An empty name names no
/// password: nothing is removed.
pub open spec fn removed(
    before: RepositoryView,
    after: RepositoryView,
    name: Seq<char>,
    user_confirmation: Seq<char>,
    answer: Result<ReplyView, Error>,
) -> bool {
    if name.len() == 0 {
        answer == Err::<ReplyView, Error>(Error::InvalidParameter) && after == before
    } else if confirmed_by(user_confirmation) {
        &&& after == before.after_remove(name)
        &&& answer == Ok::<ReplyView, Error>(
            ReplyView { lines: Seq::empty(), effect: EffectView::RemoveFolder(name) },
        )
    } else {
        &&& after == before
        &&& answer == Ok::<ReplyView, Error>(
            ReplyView { lines: seq!["Password deletion aborted"@], effect: EffectView::Nothing },
        )
    }
}

/// What a listing answers: the name of every password, each on one line.
pub open spec fn listed(state: RepositoryView, answer: Result<Reply, Error>) -> bool {
    match answer {
        Ok(reply) => state.initialized && enumerates(reply.lines@, state.folders.dom())
            && reply.effect@ == EffectView::Nothing,
        Err(error) => error == Error::IoFailure && !state.initialized,
    }
}

/// What generating a password answers: one line, the secret.
pub open spec fn generated(range: LengthRange, answer: Result<ReplyView, Error>) -> bool {
    match answer {
        Ok(reply) => reply.lines.len() == 1 && generated_within(reply.lines[0], range)
            && reply.effect == EffectView::Nothing,
        Err(Error::InvalidParameter) => range.min < 4,
        Err(Error::Internal) => range.max >= 6,
        Err(_) => false,
    }
}

/// What the set-up answers, and what it does to the store: the root is
/// there afterwards.
pub open spec fn set_up(before: RepositoryView, after: RepositoryView, reply: ReplyView) -> bool {
    &&& after == (RepositoryView {
        root: before.root,
        initialized: true,
        folders: before.folders,
    })
    &&& reply.lines.len() == 0
    &&& reply.effect == EffectView::CreateRoot
}

/// A command line, as mathematical values.
pub struct CommandLineView {
    pub args: Seq<Seq<char>>,
    pub range: LengthRange,
    pub repository: RepositoryView,
}

/// What carrying out a command answers, and what it does to the command
/// line: its arguments and its builder stay, and its repository changes as
/// the command says.
pub open spec fn carried_out(
    before: CommandLineView,
    after: CommandLineView,
    command: CommandView,
    user_confirmation: Seq<char>,
    answer: Result<Reply, Error>,
) -> bool {
    &&& after.args == before.args
    &&& after.range == before.range
    &&& match command {
        CommandView::Get { name, version } => got(
            before.repository,
            name,
            version,
            answer_view(answer),
        ) && after.repository == before.repository,
        CommandView::New { name, value } => created(
            before.repository,
            after.repository,
            before.range,
            name,
            value,
            answer_view(answer),
        ),
        CommandView::Update { name, value } => updated(
            before.repository,
            after.repository,
            before.range,
            name,
            value,
            answer_view(answer),
        ),
        CommandView::Remove { name } => removed(
            before.repository,
            after.repository,
            name,
            user_confirmation,
            answer_view(answer),
        ),
        CommandView::List => listed(before.repository, answer) && after.repository
            == before.repository,
        CommandView::Generate => generated(before.range, answer_view(answer)) && after.repository
            == before.repository,
        CommandView::Init => answer is Ok && set_up(
            before.repository,
            after.repository,
            answer->Ok_0@,
        ),
        CommandView::Help => answer is Ok && answer->Ok_0@ == (ReplyView {
            lines: Seq::empty(),
            effect: EffectView::ShowDocumentation,
        }) && after.repository == before.repository,
    }
}

/// A command line: its arguments, and the builder and the repository that
/// its commands work with.
pub struct CommandLineInterface {
    args: Vec<String>,
    builder: PasswordBuilder,
    repository: PasswordRepository,
}

impl View for CommandLineInterface {
    type V = CommandLineView;

    closed spec fn view(&self) -> CommandLineView {
        CommandLineView {
            args: texts(self.args@),
            range: self.builder@,
            repository: self.repository@,
        }
    }
}

/// The answer of a command, as mathematical values.
pub open spec fn answer_view(answer: Result<Reply, Error>) -> Result<ReplyView, Error> {
    match answer {
        Ok(reply) => Ok(reply@),
        Err(error) => Err(error),
    }
}

impl CommandLineInterface {
    /// The command line with the given arguments, the program's own name
    /// not among them, on the given repository. Passwords are generated
    /// with the default bounds.
    pub fn from_iter(
        args: Vec<String>,
        repository: PasswordRepository,
    ) -> (made: CommandLineInterface)
        ensures
            made@ == (CommandLineView {
                args: texts(args@),
                range: LengthRange { min: 8, max: 16 },
                repository: repository@,
            }),
    {
        CommandLineInterface { args, builder: PasswordBuilder::new(), repository }
    }

    /// The repository as the commands have left it.
    pub fn repository(&self) -> (repository: &PasswordRepository)
        ensures
            repository@ == self@.repository,
    {
        &self.repository
    }

    /// Gives the repository back, as the commands have left it.
    pub fn into_repository(self) -> (repository: PasswordRepository)
        ensures
            repository@ == self@.repository,
    {
        self.repository
    }

    /// The command that the arguments ask for.
    pub fn command(&self) -> (parsed: Result<Command, UsageError>)
        ensures
            match parsed {
                Ok(command) => command_of(self@.args) == Ok::<CommandView, UsageError>(command@),
                Err(error) => command_of(self@.args) == Err::<CommandView, UsageError>(error),
            },
    {
        let ghost arguments = texts(self.args@);
        if self.args.len() == 0 {
            return Err(UsageError::NoSubcommand);
        }
        let subcommand: &String = &self.args[0];
        assert(arguments[0] == subcommand@);
        if is_word(subcommand, "get") {
            let name = match self.password_name_from_args() {
                Ok(name) => name,
                Err(error) => {
                    return Err(error);
                },
            };
            match self.parse_get_flags(GetFlags::new()) {
                Ok(flags) => Ok(Command::Get { name, flags }),
                Err(error) => Err(error),
            }
        } else if is_word(subcommand, "new") {
            match self.password_name_from_args() {
                Ok(name) => Ok(Command::New { name, value: self.password_value_from_args() }),
                Err(error) => Err(error),
            }
        } else if is_word(subcommand, "update") {
            match self.password_name_from_args() {
                Ok(name) => Ok(Command::Update { name, value: self.password_value_from_args() }),
                Err(error) => Err(error),
            }
        } else if is_word(subcommand, "remove") || is_word(subcommand, "rm") {
            match self.password_name_from_args() {
                Ok(name) => Ok(Command::Remove { name }),
                Err(error) => Err(error),
            }
        } else if is_word(subcommand, "list") {
            Ok(Command::List)
        } else if is_word(subcommand, "gen") {
            Ok(Command::Generate)
        } else if is_word(subcommand, "init") {
            Ok(Command::Init)
        } else if is_word(subcommand, "help") {
            Ok(Command::Help)
        } else {
            Err(UsageError::UnknownSubcommand)
        }
    }

    /// The name of the password that the command is about: the argument
    /// after the command, which must not be empty.
    pub fn password_name_from_args(&self) -> (found: Result<String, UsageError>)
        ensures
            match found {
                Ok(name) => name_of(self@.args) == Ok::<Seq<char>, UsageError>(name@),
                Err(error) => name_of(self@.args) == Err::<Seq<char>, UsageError>(error),
            },
    {
        if self.args.len() >= 2 && !self.args[1].as_str().is_empty() {
            Ok(self.args[1].clone())
        } else {
            Err(UsageError::NoPasswordName)
        }
    }

    /// The value that the command gives for the password: the argument after
    /// the name, if there is one.
    pub fn password_value_from_args(&self) -> (found: Option<String>)
        ensures
            text_of(found) == value_of(self@.args),
    {
        if self.args.len() >= 3 {
            Some(self.args[2].clone())
        } else {
            None
        }
    }

    /// Reads the flags of a `get` command, which follow the name of the
    /// password, into `flags`.
    pub fn parse_get_flags(&self, flags: GetFlags) -> (parsed: Result<GetFlags, UsageError>)
        ensures
            match parsed {
                Ok(read) => flags_of(after_name(self@.args), flags.version) == Ok::<
                    Option<u32>,
                    UsageError,
                >(read.version),
                Err(error) => flags_of(after_name(self@.args), flags.version) == Err::<
                    Option<u32>,
                    UsageError,
                >(error),
            },
    {
        let ghost arguments = texts(self.args@);
        let ghost asked = flags_of(after_name(arguments), flags.version);
        let mut read = flags;
        if self.args.len() <= 2 {
            assert(after_name(arguments).len() == 0);
            return Ok(read);
        }
        let mut at: usize = 2;
        while at < self.args.len()
            invariant
                2 <= at <= self.args.len(),
                arguments == texts(self.args@),
                asked == flags_of(after_name(arguments), flags.version),
                flags_of(arguments.skip(at as int), read.version) == asked,
            decreases self.args.len() - at,
        {
            let ghost rest = arguments.skip(at as int);
            assert(rest.len() == self.args.len() - at);
            assert(rest[0] == self.args[at as int]@);
            if is_word(&self.args[at], "--version") {
                if at + 1 == self.args.len() {
                    assert(flags_of(rest, read.version) == Ok::<Option<u32>, UsageError>(None));
                    read.version = None;
                    return Ok(read);
                }
                assert(rest[1] == self.args[at + 1]@);
                assert(rest.skip(2) =~= arguments.skip(at + 2));
                match parse_version(self.args[at + 1].as_str()) {
                    Some(version) => {
                        assert(flags_of(rest, read.version) == flags_of(
                            rest.skip(2),
                            Some(version),
                        ));
                        read.version = Some(version);
                    },
                    None => {
                        assert(flags_of(rest, read.version) == Err::<Option<u32>, UsageError>(
                            UsageError::IncorrectVersion,
                        ));
                        return Err(UsageError::IncorrectVersion);
                    },
                }
                at = at + 2;
            } else {
                assert(rest.skip(1) =~= arguments.skip(at + 1));
                assert(flags_of(rest, read.version) == flags_of(rest.skip(1), read.version));
                at = at + 1;
            }
        }
        assert(arguments.skip(at as int).len() == 0);
        Ok(read)
    }

    /// The argument that makes the flags of a `get` command incorrect: the
    /// first that follows `--version` and is no number, if there is one.
    pub fn incorrect_version(&self) -> (found: Option<String>)
        ensures
            text_of(found) == incorrect_of(after_name(self@.args)),
    {
        let ghost arguments = texts(self.args@);
        let ghost asked = incorrect_of(after_name(arguments));
        if self.args.len() <= 2 {
            assert(after_name(arguments).len() == 0);
            return None;
        }
        let mut at: usize = 2;
        while at < self.args.len()
            invariant
                2 <= at <= self.args.len(),
                arguments == texts(self.args@),
                asked == incorrect_of(after_name(arguments)),
                incorrect_of(arguments.skip(at as int)) == asked,
            decreases self.args.len() - at,
        {
            let ghost rest = arguments.skip(at as int);
            assert(rest.len() == self.args.len() - at);
            assert(rest[0] == self.args[at as int]@);
            if is_word(&self.args[at], "--version") {
                if at + 1 == self.args.len() {
                    assert(incorrect_of(rest) == None::<Seq<char>>);
                    return None;
                }
                assert(rest[1] == self.args[at + 1]@);
                assert(rest.skip(2) =~= arguments.skip(at + 2));
                if parse_version(self.args[at + 1].as_str()).is_none() {
                    assert(incorrect_of(rest) == Some(rest[1]));
                    return Some(self.args[at + 1].clone());
                }
                assert(incorrect_of(rest) == incorrect_of(rest.skip(2)));
                at = at + 2;
            } else {
                assert(rest.skip(1) =~= arguments.skip(at + 1));
                assert(incorrect_of(rest) == incorrect_of(rest.skip(1)));
                at = at + 1;
            }
        }
        assert(arguments.skip(at as int).len() == 0);
        None
    }

    /// The flags of a `get` command that are not understood, in their
    /// order, so that the caller can warn of them.
    pub fn unknown_get_flags(&self) -> (unknown: Vec<String>)
        ensures
            texts(unknown@) == passed_over(after_name(self@.args)),
    {
        let ghost arguments = texts(self.args@);
        let ghost all = passed_over(after_name(arguments));
        let mut unknown: Vec<String> = Vec::new();
        if self.args.len() <= 2 {
            assert(after_name(arguments).len() == 0);
            assert(texts(unknown@) =~= all);
            return unknown;
        }
        let mut at: usize = 2;
        while at < self.args.len()
            invariant
                2 <= at <= self.args.len(),
                arguments == texts(self.args@),
                all == passed_over(after_name(arguments)),
                texts(unknown@) + passed_over(arguments.skip(at as int)) == all,
            decreases self.args.len() - at,
        {
            let ghost rest = arguments.skip(at as int);
            let ghost found = texts(unknown@);
            assert(rest.len() == self.args.len() - at);
            assert(rest[0] == self.args[at as int]@);
            if is_word(&self.args[at], "--version") {
                if at + 1 == self.args.len() {
                    assert(passed_over(rest) == Seq::<Seq<char>>::empty());
                    assert(found + Seq::<Seq<char>>::empty() =~= found);
                    return unknown;
                }
                assert(rest.skip(2) =~= arguments.skip(at + 2));
                assert(passed_over(rest) == passed_over(rest.skip(2)));
                at = at + 2;
            } else {
                assert(rest.skip(1) =~= arguments.skip(at + 1));
                assert(passed_over(rest) == seq![rest[0]] + passed_over(rest.skip(1)));
                unknown.push(self.args[at].clone());
                let ghost later = passed_over(rest.skip(1));
                assert(texts(unknown@) =~= found + seq![rest[0]]);
                assert((found + seq![rest[0]]) + later =~= found + (seq![rest[0]] + later));
                at = at + 1;
            }
        }
        assert(passed_over(arguments.skip(at as int)) == Seq::<Seq<char>>::empty());
        assert(texts(unknown@) + Seq::<Seq<char>>::empty() =~= texts(unknown@));
        unknown
    }

    /// Carries out the command that the arguments ask for.
    ///
    /// `user_confirmation` is what the user answered when asked whether the
    /// password is to be removed; only the removal reads it.
    pub fn run(&mut self, user_confirmation: &str) -> (answer: Result<Reply, Failure>)
        ensures
            match answer {
                Ok(reply) => command_of(old(self)@.args) matches Ok(command) && carried_out(
                    old(self)@,
                    final(self)@,
                    command,
                    user_confirmation@,
                    Ok(reply),
                ),
                Err(Failure::Store(error)) => command_of(old(self)@.args) matches Ok(command)
                    && carried_out(
                        old(self)@,
                        final(self)@,
                        command,
                        user_confirmation@,
                        Err(error),
                    ),
                Err(Failure::Usage(error)) => command_of(old(self)@.args) == Err::<
                    CommandView,
                    UsageError,
                >(error) && final(self)@ == old(self)@,
            },
    {
        let command = match self.command() {
            Ok(command) => command,
            Err(error) => {
                return Err(Failure::Usage(error));
            },
        };
        match self.execute(command, user_confirmation) {
            Ok(reply) => Ok(reply),
            Err(error) => Err(Failure::Store(error)),
        }
    }

    /// Carries out a command.
    ///
    /// `user_confirmation` is what the user answered when asked whether the
    /// password is to be removed; only the removal reads it.
    pub fn execute(
        &mut self,
        command: Command,
        user_confirmation: &str,
    ) -> (answer: Result<Reply, Error>)
        ensures
            carried_out(old(self)@, final(self)@, command@, user_confirmation@, answer),
    {
        match command {
            Command::Get { name, flags } => self.get_password(name.as_str(), flags),
            Command::New { name, value } => self.new_password(name, value),
            Command::Update { name, value } => self.update_password(name, value),
            Command::Remove { name } => self.remove_password(name.as_str(), user_confirmation),
            Command::List => self.list_all_passwords(),
            Command::Generate => self.generate_password(),
            Command::Init => Ok(self.passwords_setup()),
            Command::Help => {
                let lines: Vec<String> = Vec::new();
                assert(texts(lines@) =~= Seq::<Seq<char>>::empty());
                Ok(Reply { lines, effect: Effect::ShowDocumentation })
            },
        }
    }

    /// Looks a password up and shows it.
    pub fn get_password(
        &self,
        password_name: &str,
        flags: GetFlags,
    ) -> (answer: Result<Reply, Error>)
        ensures
            got(self@.repository, password_name@, flags.version, answer_view(answer)),
    {
        match self.repository.get(password_name, flags) {
            Ok(password) => {
                let mut lines: Vec<String> = Vec::new();
                lines.push(password.to_string());
                assert(texts(lines@) =~= seq![password@.password.line()]);
                Ok(Reply { lines, effect: Effect::Nothing })
            },
            Err(error) => Err(error),
        }
    }

    /// Stores a new password: the given value, or one that is generated
    /// and shown.
    pub fn new_password(
        &mut self,
        password_name: String,
        password_value: Option<String>,
    ) -> (answer: Result<Reply, Error>)
        ensures
            final(self)@.args == old(self)@.args,
            final(self)@.range == old(self)@.range,
            created(
                old(self)@.repository,
                final(self)@.repository,
                old(self)@.range,
                password_name@,
                text_of(password_value),
                answer_view(answer),
            ),
    {
        if password_name.as_str().is_empty() {
            return Err(Error::InvalidParameter);
        }
        match password_value {
            Some(password_value) => {
                let password = Password::new(password_name, password_value);
                match self.repository.add(&password) {
                    Ok(version) => {
                        let lines: Vec<String> = Vec::new();
                        assert(texts(lines@).len() == 0);
                        Ok(Reply { lines, effect: Effect::WriteVersion(version) })
                    },
                    Err(error) => Err(error),
                }
            },
            None => self.create_and_save_password(password_name),
        }
    }

    /// Stores one more version of a password: the given value, or one that
    /// is generated and shown.
    pub fn update_password(
        &mut self,
        password_name: String,
        password_value: Option<String>,
    ) -> (answer: Result<Reply, Error>)
        ensures
            final(self)@.args == old(self)@.args,
            final(self)@.range == old(self)@.range,
            updated(
                old(self)@.repository,
                final(self)@.repository,
                old(self)@.range,
                password_name@,
                text_of(password_value),
                answer_view(answer),
            ),
    {
        if password_name.as_str().is_empty() {
            return Err(Error::InvalidParameter);
        }
        match password_value {
            Some(password_value) => {
                let password = Password::new(password_name, password_value);
                match self.repository.update(&password) {
                    Ok(version) => {
                        let lines: Vec<String> = Vec::new();
                        assert(texts(lines@).len() == 0);
                        Ok(Reply { lines, effect: Effect::WriteVersion(version) })
                    },
                    Err(error) => Err(error),
                }
            },
            None => self.create_and_update_password(password_name),
        }
    }

    /// Generates a password, stores it as a new one, and shows it.
    pub fn create_and_save_password(
        &mut self,
        password_name: String,
    ) -> (answer: Result<Reply, Error>)
        ensures
            final(self)@.args == old(self)@.args,
            final(self)@.range == old(self)@.range,
            created(
                old(self)@.repository,
                final(self)@.repository,
                old(self)@.range,
                password_name@,
                None,
                answer_view(answer),
            ),
    {
        if password_name.as_str().is_empty() {
            return Err(Error::InvalidParameter);
        }
        let password = match self.builder.build(password_name) {
            Ok(password) => password,
            Err(error) => {
                return Err(error);
            },
        };
        match self.repository.add(&password) {
            Ok(version) => {
                let mut lines: Vec<String> = Vec::new();
                lines.push(password.to_string());
                assert(texts(lines@) =~= seq![password@.line()]);
                Ok(Reply { lines, effect: Effect::WriteVersion(version) })
            },
            Err(error) => Err(error),
        }
    }

    /// Generates a password, stores it as one more version, and shows it.
    pub fn create_and_update_password(
        &mut self,
        password_name: String,
    ) -> (answer: Result<Reply, Error>)
        ensures
            final(self)@.args == old(self)@.args,
            final(self)@.range == old(self)@.range,
            updated(
                old(self)@.repository,
                final(self)@.repository,
                old(self)@.range,
                password_name@,
                None,
                answer_view(answer),
            ),
    {
        if password_name.as_str().is_empty() {
            return Err(Error::InvalidParameter);
        }
        let password = match self.builder.build(password_name) {
            Ok(password) => password,
            Err(error) => {
                return Err(error);
            },
        };
        match self.repository.update(&password) {
            Ok(version) => {
                let mut lines: Vec<String> = Vec::new();
                lines.push(password.to_string());
                assert(texts(lines@) =~= seq![password@.line()]);
                Ok(Reply { lines, effect: Effect::WriteVersion(version) })
            },
            Err(error) => Err(error),
        }
    }

    /// Removes a password with all its versions, if the user's answer
    /// confirms it. An empty name names no password: nothing is removed.
    pub fn remove_password(
        &mut self,
        password_name: &str,
        user_confirmation: &str,
    ) -> (answer: Result<Reply, Error>)
        ensures
            final(self)@.args == old(self)@.args,
            final(self)@.range == old(self)@.range,
            removed(
                old(self)@.repository,
                final(self)@.repository,
                password_name@,
                user_confirmation@,
                answer_view(answer),
            ),
    {
        if password_name.is_empty() {
            return Err(Error::InvalidParameter);
        }
        if confirms(user_confirmation) {
            self.repository.remove(password_name);
            let lines: Vec<String> = Vec::new();
            assert(texts(lines@) =~= Seq::<Seq<char>>::empty());
            Ok(Reply { lines, effect: Effect::RemoveFolder(password_name.to_owned()) })
        } else {
            let mut lines: Vec<String> = Vec::new();
            lines.push("Password deletion aborted".to_owned());
            assert(texts(lines@) =~= seq!["Password deletion aborted"@]);
            Ok(Reply { lines, effect: Effect::Nothing })
        }
    }

    /// Lists the names of the passwords.
    pub fn list_all_passwords(&self) -> (answer: Result<Reply, Error>)
        ensures
            listed(self@.repository, answer),
    {
        match self.repository.list() {
            Ok(lines) => Ok(Reply { lines, effect: Effect::Nothing }),
            Err(error) => Err(error),
        }
    }

    /// Generates a password and shows it, without storing it.
    pub fn generate_password(&self) -> (answer: Result<Reply, Error>)
        ensures
            generated(self@.range, answer_view(answer)),
    {
        match self.builder.build_secure_password() {
            Ok(password) => {
                let mut lines: Vec<String> = Vec::new();
                let ghost secret = password@;
                lines.push(password);
                assert(texts(lines@)[0] == secret);
                Ok(Reply { lines, effect: Effect::Nothing })
            },
            Err(error) => Err(error),
        }
    }

    /// Makes the root directory.
    pub fn passwords_setup(&mut self) -> (reply: Reply)
        ensures
            final(self)@.args == old(self)@.args,
            final(self)@.range == old(self)@.range,
            set_up(old(self)@.repository, final(self)@.repository, reply@),
    {
        self.repository.init();
        let lines: Vec<String> = Vec::new();
        assert(texts(lines@).len() == 0);
        Reply { lines, effect: Effect::CreateRoot }
    }
}

/// Whether the user's answer confirms a removal: it does when, trimmed and
/// put in lowercase, it is the word `yes`.
pub fn confirms(user_confirmation: &str) -> (confirmed: bool)
    ensures
        confirmed == confirmed_by(user_confirmation@),
{
    let answer: String = to_lowercase(trim(user_confirmation));
    is_yes(answer.as_str())
}

/// Whether a trimmed answer in lowercase is the word `yes`.
pub fn is_yes(answer: &str) -> (yes: bool)
    ensures
        yes == (answer@ == seq!['y', 'e', 's']),
{
    proof {
        reveal_strlit("yes");
    }
    assert("yes"@ =~= seq!['y', 'e', 's']);
    let word: String = answer.to_owned();
    is_word(&word, "yes")
}

} // verus!
