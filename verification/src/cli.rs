//! The command line: its commands, their options, and the parser that reads
//! them from the arguments of the program.
//!
//! An option is written with its long name, `--name value` or `--name=value`,
//! or with its letter, `-n value`. Options that take a list take its items
//! with commas between them, and may be given more than once.

use crate::text::{
    chars_of,
    lemma_views_push,
    occurs_at,
    push_str_chars,
    same_text,
    split_commas,
    split_on_commas,
    string_of,
    views,
};
use vstd::prelude::*;

verus! {

/// The platform to scan.
#[derive(Debug, Clone, Copy, PartialEq, Eq, Structural)]
pub enum ScanTarget {
    /// Docker containers.
    Docker,
    /// Kubernetes workloads.
    K8s,
    /// Both platforms.
    Both,
}

/// A severity as a caller names it, to select findings or to set the
/// threshold at which a scan fails. The variants are listed in increasing
/// order.
#[derive(Debug, Clone, Copy, PartialEq, Eq, PartialOrd, Ord, Structural)]
pub enum SeverityLevel {
    Informative,
    Low,
    Medium,
    High,
}

/// The form in which the results are written.
#[derive(Debug, Clone, Copy, PartialEq, Eq, Structural)]
pub enum OutputFormat {
    /// A table for people to read.
    Table,
    /// JSON, for programs.
    Json,
    /// CSV, for spreadsheets.
    Csv,
}

/// The commands of the program, by name.
#[derive(Debug, Clone, Copy, PartialEq, Eq, Structural)]
pub enum Subcommand {
    Scan,
    DockerFile,
    ListPlugins,
    Config,
}

/// The options of the commands.
#[derive(Debug, Clone, Copy, PartialEq, Eq, Structural)]
pub enum Flag {
    Target,
    Only,
    Exclude,
    State,
    Container,
    Severity,
    MinSeverity,
    FailOn,
    Quiet,
    Format,
    Output,
    Path,
    Rules,
}

/// What is wrong with a command line.
#[derive(Debug, Clone, Copy, PartialEq, Eq, Structural)]
pub enum CliErrorKind {
    /// The command line asks for help.
    HelpRequested,
    /// The command line asks for the version.
    VersionRequested,
    /// There is no command.
    MissingSubcommand,
    /// The command is not one of the program's.
    UnknownSubcommand,
    /// The argument is no option of the command.
    UnknownArgument,
    /// The option needs a value and has none.
    MissingValue,
    /// The option takes no value and has one.
    UnexpectedValue,
    /// The value is not one that the option accepts.
    InvalidValue,
    /// The option can be given once and is given again.
    UsedTwice,
    /// The option cannot be used with another one that is given.
    Conflict,
    /// The option needs another one that is not given.
    MissingCompanion,
    /// The option must be given and is not.
    MissingRequired,
}

/// An error of the command line: what is wrong, and the argument or the name
/// of the option that it is wrong with.
#[derive(Debug)]
pub struct CliError {
    pub kind: CliErrorKind,
    pub argument: String,
}

/// An error of the command line, as a mathematical value.
pub ghost struct CliErrorView {
    pub kind: CliErrorKind,
    pub argument: Seq<char>,
}

impl View for CliError {
    type V = CliErrorView;

    open spec fn view(&self) -> CliErrorView {
        CliErrorView { kind: self.kind, argument: self.argument@ }
    }
}

/// One option as it occurs on the command line, with its value. An option
/// that takes no value occurs with the empty text.
#[derive(Debug)]
pub struct Occurrence {
    pub flag: Flag,
    pub value: String,
}

/// An occurrence as a mathematical value.
pub ghost struct OccurrenceView {
    pub flag: Flag,
    pub value: Seq<char>,
}

impl View for Occurrence {
    type V = OccurrenceView;

    open spec fn view(&self) -> OccurrenceView {
        OccurrenceView { flag: self.flag, value: self.value@ }
    }
}

/// The views of the occurrences of `list`.
pub open spec fn occurrence_views(list: Seq<Occurrence>) -> Seq<OccurrenceView> {
    Seq::new(list.len(), |i: int| list[i]@)
}

/// The number of options.
pub open spec fn flag_count() -> nat {
    13
}

/// The options, in the order in which an argument is held against them.
pub open spec fn flag_at(k: int) -> Flag {
    if k == 0 {
        Flag::Target
    } else if k == 1 {
        Flag::Only
    } else if k == 2 {
        Flag::Exclude
    } else if k == 3 {
        Flag::State
    } else if k == 4 {
        Flag::Container
    } else if k == 5 {
        Flag::Severity
    } else if k == 6 {
        Flag::MinSeverity
    } else if k == 7 {
        Flag::FailOn
    } else if k == 8 {
        Flag::Quiet
    } else if k == 9 {
        Flag::Format
    } else if k == 10 {
        Flag::Output
    } else if k == 11 {
        Flag::Path
    } else {
        Flag::Rules
    }
}

impl Flag {
    /// The long form of the option, as it is written on the command line.
    pub open spec fn long(self) -> Seq<char> {
        match self {
            Flag::Target => "--target"@,
            Flag::Only => "--only"@,
            Flag::Exclude => "--exclude"@,
            Flag::State => "--state"@,
            Flag::Container => "--container"@,
            Flag::Severity => "--severity"@,
            Flag::MinSeverity => "--min-severity"@,
            Flag::FailOn => "--fail-on"@,
            Flag::Quiet => "--quiet"@,
            Flag::Format => "--format"@,
            Flag::Output => "--output"@,
            Flag::Path => "--path"@,
            Flag::Rules => "--rules"@,
        }
    }

    /// The short form of the option, for the options that have one.
    pub open spec fn short(self) -> Option<Seq<char>> {
        match self {
            Flag::Target => Some("-t"@),
            Flag::Container => Some("-c"@),
            Flag::Format => Some("-f"@),
            Flag::Output => Some("-o"@),
            Flag::Path => Some("-p"@),
            Flag::Rules => Some("-r"@),
            _ => None,
        }
    }

    /// Whether the option takes a value. `--quiet` is the one that takes none.
    pub open spec fn takes_value(self) -> bool {
        self != Flag::Quiet
    }

    /// Whether the option takes a list, and so may be given more than once.
    pub open spec fn takes_list(self) -> bool {
        self == Flag::Only || self == Flag::Exclude || self == Flag::State || self
            == Flag::Container || self == Flag::Severity
    }

    /// Whether the command `command` has the option.
    pub open spec fn allowed(self, command: Subcommand) -> bool {
        match command {
            Subcommand::Scan => self != Flag::Path && self != Flag::Rules,
            Subcommand::DockerFile => self != Flag::Target && self != Flag::State && self
                != Flag::Container,
            Subcommand::ListPlugins => self == Flag::Target,
            Subcommand::Config => false,
        }
    }

    /// The long form of the option.
    pub fn long_name(self) -> (name: &'static str)
        ensures
            name@ == self.long(),
    {
        match self {
            Flag::Target => "--target",
            Flag::Only => "--only",
            Flag::Exclude => "--exclude",
            Flag::State => "--state",
            Flag::Container => "--container",
            Flag::Severity => "--severity",
            Flag::MinSeverity => "--min-severity",
            Flag::FailOn => "--fail-on",
            Flag::Quiet => "--quiet",
            Flag::Format => "--format",
            Flag::Output => "--output",
            Flag::Path => "--path",
            Flag::Rules => "--rules",
        }
    }

    /// The short form of the option.
    pub fn short_name(self) -> (name: Option<&'static str>)
        ensures
            match name {
                Some(text) => self.short() == Some(text@),
                None => self.short() is None,
            },
    {
        match self {
            Flag::Target => Some("-t"),
            Flag::Container => Some("-c"),
            Flag::Format => Some("-f"),
            Flag::Output => Some("-o"),
            Flag::Path => Some("-p"),
            Flag::Rules => Some("-r"),
            _ => None,
        }
    }

    /// Whether the command has the option.
    pub fn is_allowed(self, command: Subcommand) -> (b: bool)
        ensures
            b == self.allowed(command),
    {
        match command {
            Subcommand::Scan => !matches!(self, Flag::Path | Flag::Rules),
            Subcommand::DockerFile => !matches!(self, Flag::Target | Flag::State | Flag::Container),
            Subcommand::ListPlugins => matches!(self, Flag::Target),
            Subcommand::Config => false,
        }
    }
}

/// The option at position `k` of the order of the options.
pub fn flag_of(k: usize) -> (flag: Flag)
    requires
        k < flag_count(),
    ensures
        flag == flag_at(k as int),
{
    if k == 0 {
        Flag::Target
    } else if k == 1 {
        Flag::Only
    } else if k == 2 {
        Flag::Exclude
    } else if k == 3 {
        Flag::State
    } else if k == 4 {
        Flag::Container
    } else if k == 5 {
        Flag::Severity
    } else if k == 6 {
        Flag::MinSeverity
    } else if k == 7 {
        Flag::FailOn
    } else if k == 8 {
        Flag::Quiet
    } else if k == 9 {
        Flag::Format
    } else if k == 10 {
        Flag::Output
    } else if k == 11 {
        Flag::Path
    } else {
        Flag::Rules
    }
}

/// How an argument names an option: the option, and the value that the
/// argument holds after `=`, where it holds one.
pub ghost struct Named {
    pub flag: Flag,
    pub inline: Option<Seq<char>>,
}

/// How `token` names `flag`, if it does: by the long form, by the long form
/// with `=` and a value, or by the short form.
pub open spec fn names_flag(token: Seq<char>, flag: Flag) -> Option<Named> {
    if token == flag.long() {
        Some(Named { flag, inline: None })
    } else if occurs_at(token, flag.long() + "="@, 0) {
        Some(Named { flag, inline: Some(token.skip((flag.long() + "="@).len() as int)) })
    } else if flag.short() == Some(token) {
        Some(Named { flag, inline: None })
    } else {
        None
    }
}

/// The first option of `command`, from position `k` of the order on, that
/// `token` names.
pub open spec fn find_flag(command: Subcommand, token: Seq<char>, k: int) -> Option<Named>
    decreases flag_count() - k,
{
    if k < 0 || k >= flag_count() {
        None
    } else if flag_at(k).allowed(command) && names_flag(token, flag_at(k)) is Some {
        names_flag(token, flag_at(k))
    } else {
        find_flag(command, token, k + 1)
    }
}

/// An option that an argument names, with the value after `=`.
#[derive(Debug)]
pub struct NamedFlag {
    pub flag: Flag,
    pub inline: Option<String>,
}

/// Whether `found` is the exec form of `named`.
pub open spec fn same_named(found: Option<NamedFlag>, named: Option<Named>) -> bool {
    match (found, named) {
        (Some(f), Some(n)) => f.flag == n.flag && match (f.inline, n.inline) {
            (Some(a), Some(b)) => a@ == b,
            (None, None) => true,
            _ => false,
        },
        (None, None) => true,
        _ => false,
    }
}

/// How `token` names `flag`, if it does.
fn match_flag(token: &str, flag: Flag) -> (found: Option<NamedFlag>)
    ensures
        same_named(found, names_flag(token@, flag)),
{
    if same_text(token, flag.long_name()) {
        return Some(NamedFlag { flag, inline: None });
    }
    let t = chars_of(token);
    let mut prefix = chars_of(flag.long_name());
    push_str_chars(&mut prefix, "=");
    let n = prefix.len();
    if n <= t.len() {
        let mut k: usize = 0;
        while k < n && t[k] == prefix[k]
            invariant
                k <= n <= t.len(),
                n == prefix.len(),
                forall|j: int| 0 <= j < k ==> t@[j] == prefix@[j],
            decreases n - k,
        {
            k += 1;
        }
        if k == n {
            assert(t@.subrange(0, n as int) =~= prefix@);
            let mut rest: Vec<char> = Vec::new();
            let mut i: usize = n;
            while i < t.len()
                invariant
                    n <= i <= t.len(),
                    rest@ == t@.subrange(n as int, i as int),
                decreases t.len() - i,
            {
                rest.push(t[i]);
                i += 1;
            }
            assert(rest@ =~= t@.skip(n as int));
            return Some(NamedFlag { flag, inline: Some(string_of(&rest)) });
        } else {
            assert(t@.subrange(0, n as int)[k as int] != prefix@[k as int]);
        }
    }
    match flag.short_name() {
        Some(short) => {
            if same_text(token, short) {
                Some(NamedFlag { flag, inline: None })
            } else {
                None
            }
        },
        None => None,
    }
}

/// The option of `command` that `token` names, if it names one.
pub fn find_named_flag(command: Subcommand, token: &str) -> (found: Option<NamedFlag>)
    ensures
        same_named(found, find_flag(command, token@, 0)),
{
    let mut k: usize = 0;
    while k < 13
        invariant
            k <= 13,
            find_flag(command, token@, 0) == find_flag(command, token@, k as int),
        decreases 13 - k,
    {
        let flag = flag_of(k);
        if flag.is_allowed(command) {
            let found = match_flag(token, flag);
            if found.is_some() {
                return found;
            }
        }
        k += 1;
    }
    None
}

/// Whether an argument asks for help.
pub open spec fn is_help(token: Seq<char>) -> bool {
    token == "--help"@ || token == "-h"@
}

/// Whether an argument asks for the version.
pub open spec fn is_version(token: Seq<char>) -> bool {
    token == "--version"@ || token == "-V"@
}

/// Whether an argument has the shape of an option: it begins with `-` and is
/// longer than that. Such an argument is never taken as the value of an
/// option.
pub open spec fn looks_like_option(token: Seq<char>) -> bool {
    token.len() > 1 && token[0] == '-'
}

/// What reading the options of a command gives: the occurrences in order, or
/// the first error.
pub type Scanned = Result<Seq<OccurrenceView>, CliErrorView>;

/// `occurrence` in front of what the rest of the arguments gives.
pub open spec fn after(occurrence: OccurrenceView, rest: Scanned) -> Scanned {
    match rest {
        Ok(list) => Ok(seq![occurrence] + list),
        Err(e) => Err(e),
    }
}

/// The occurrences of options in `tokens` from position `from` on, read from
/// left to right, or the first error.
///
/// An argument that asks for help is an error of its own kind. Any other
/// argument must name an option of the command. An option that takes a value
/// has it after `=` or in the next argument, which must not look like an
/// option; an option that takes none must not have one.
pub open spec fn scan_from(command: Subcommand, tokens: Seq<Seq<char>>, from: int) -> Scanned
    decreases tokens.len() - from,
{
    if from < 0 || from >= tokens.len() {
        Ok(Seq::empty())
    } else if is_help(tokens[from]) {
        Err(CliErrorView { kind: CliErrorKind::HelpRequested, argument: tokens[from] })
    } else {
        match find_flag(command, tokens[from], 0) {
            None => Err(
                CliErrorView { kind: CliErrorKind::UnknownArgument, argument: tokens[from] },
            ),
            Some(named) => if !named.flag.takes_value() {
                match named.inline {
                    Some(_) => Err(
                        CliErrorView {
                            kind: CliErrorKind::UnexpectedValue,
                            argument: named.flag.long(),
                        },
                    ),
                    None => after(
                        OccurrenceView { flag: named.flag, value: Seq::empty() },
                        scan_from(command, tokens, from + 1),
                    ),
                }
            } else {
                match named.inline {
                    Some(value) => after(
                        OccurrenceView { flag: named.flag, value },
                        scan_from(command, tokens, from + 1),
                    ),
                    None => if from + 1 < tokens.len() && !looks_like_option(tokens[from + 1]) {
                        after(
                            OccurrenceView { flag: named.flag, value: tokens[from + 1] },
                            scan_from(command, tokens, from + 2),
                        )
                    } else {
                        Err(
                            CliErrorView {
                                kind: CliErrorKind::MissingValue,
                                argument: named.flag.long(),
                            },
                        )
                    },
                }
            },
        }
    }
}

/// The texts of a list of arguments.
pub open spec fn arg_texts(args: Seq<&str>) -> Seq<Seq<char>> {
    Seq::new(args.len(), |i: int| args[i]@)
}

/// `done` in front of what the rest of the arguments gives.
pub open spec fn after_all(done: Seq<OccurrenceView>, rest: Scanned) -> Scanned {
    match rest {
        Ok(list) => Ok(done + list),
        Err(e) => Err(e),
    }
}

/// Whether an argument asks for help.
fn is_help_token(token: &str) -> (b: bool)
    ensures
        b == is_help(token@),
{
    same_text(token, "--help") || same_text(token, "-h")
}

/// Whether an argument asks for the version.
fn is_version_token(token: &str) -> (b: bool)
    ensures
        b == is_version(token@),
{
    same_text(token, "--version") || same_text(token, "-V")
}

/// Whether an argument has the shape of an option.
fn is_option_like(token: &str) -> (b: bool)
    ensures
        b == looks_like_option(token@),
{
    let t = chars_of(token);
    t.len() > 1 && t[0] == '-'
}

/// An error of the kind `kind` about `argument`.
fn error(kind: CliErrorKind, argument: &str) -> (e: CliError)
    ensures
        e@ == (CliErrorView { kind, argument: argument@ }),
{
    CliError { kind, argument: argument.to_owned() }
}

/// Reads the options of `command` from `args`, from position `from` on.
pub fn scan_options(command: Subcommand, args: &[&str], from: usize) -> (r: Result<
    Vec<Occurrence>,
    CliError,
>)
    ensures
        match r {
            Ok(list) => scan_from(command, arg_texts(args@), from as int) == Scanned::Ok(
                occurrence_views(list@),
            ),
            Err(e) => scan_from(command, arg_texts(args@), from as int) == Scanned::Err(e@),
        },
{
    let ghost tokens = arg_texts(args@);
    let mut done: Vec<Occurrence> = Vec::new();
    let mut i: usize = from;
    proof {
        assert(occurrence_views(done@) =~= Seq::<OccurrenceView>::empty());
        match scan_from(command, tokens, from as int) {
            Ok(list) => {
                assert(Seq::<OccurrenceView>::empty() + list =~= list);
            },
            Err(_) => {},
        }
    }
    while i < args.len()
        invariant
            from <= i,
            tokens == arg_texts(args@),
            scan_from(command, tokens, from as int) == after_all(
                occurrence_views(done@),
                scan_from(command, tokens, i as int),
            ),
        decreases args.len() - i,
    {
        let token = args[i];
        let ghost before = occurrence_views(done@);
        assert(tokens[i as int] == token@);
        if is_help_token(token) {
            return Err(error(CliErrorKind::HelpRequested, token));
        }
        let named = match find_named_flag(command, token) {
            Some(named) => named,
            None => {
                return Err(error(CliErrorKind::UnknownArgument, token));
            },
        };
        let flag = named.flag;
        let takes_value = !matches!(flag, Flag::Quiet);
        let mut step: usize = 1;
        let value = if !takes_value {
            if named.inline.is_some() {
                return Err(error(CliErrorKind::UnexpectedValue, flag.long_name()));
            }
            String::new()
        } else {
            match named.inline {
                Some(value) => value,
                None => {
                    if i + 1 < args.len() && !is_option_like(args[i + 1]) {
                        assert(tokens[i + 1] == args@[i + 1]@);
                        step = 2;
                        args[i + 1].to_owned()
                    } else {
                        if i + 1 < args.len() {
                            assert(tokens[i + 1] == args@[i + 1]@);
                        }
                        return Err(error(CliErrorKind::MissingValue, flag.long_name()));
                    }
                },
            }
        };
        let occurrence = Occurrence { flag, value };
        proof {
            let rest = scan_from(command, tokens, i + step);
            assert(scan_from(command, tokens, i as int) == after(occurrence@, rest));
            assert(occurrence_views(done@.push(occurrence)) =~= before.push(occurrence@));
            match rest {
                Ok(list) => {
                    assert(before + (seq![occurrence@] + list) =~= before.push(occurrence@) + list);
                },
                Err(_) => {},
            }
        }
        done.push(occurrence);
        i += step;
    }
    proof {
        assert(occurrence_views(done@) + Seq::<OccurrenceView>::empty() =~= occurrence_views(
            done@,
        ));
    }
    Ok(done)
}

/// A command with its options.
#[derive(Debug)]
#[allow(inconsistent_fields)]
pub enum Commands {
    /// Scan running containers.
    Scan {
        target: ScanTarget,
        only: Option<Vec<String>>,
        exclude: Option<Vec<String>>,
        state: Option<Vec<String>>,
        container: Option<Vec<String>>,
        severity: Option<Vec<SeverityLevel>>,
        min_severity: Option<SeverityLevel>,
        fail_on: Option<SeverityLevel>,
        quiet: bool,
        format: OutputFormat,
        output: Option<String>,
    },
    /// Scan a Dockerfile.
    DockerFile {
        path: String,
        rules: String,
        only: Option<Vec<String>>,
        exclude: Option<Vec<String>>,
        severity: Option<Vec<SeverityLevel>>,
        min_severity: Option<SeverityLevel>,
        fail_on: Option<SeverityLevel>,
        quiet: bool,
        format: OutputFormat,
        output: Option<String>,
    },
    /// List the rules.
    ListPlugins { target: Option<ScanTarget> },
    /// Show where the configuration file is.
    Config {  },
}

/// A parsed command line.
#[derive(Debug)]
pub struct Cli {
    pub command: Commands,
}

/// A command with its options, as a mathematical value.
#[allow(inconsistent_fields)]
pub ghost enum CommandView {
    Scan {
        target: ScanTarget,
        only: Option<Seq<Seq<char>>>,
        exclude: Option<Seq<Seq<char>>>,
        state: Option<Seq<Seq<char>>>,
        container: Option<Seq<Seq<char>>>,
        severity: Option<Seq<SeverityLevel>>,
        min_severity: Option<SeverityLevel>,
        fail_on: Option<SeverityLevel>,
        quiet: bool,
        format: OutputFormat,
        output: Option<Seq<char>>,
    },
    DockerFile {
        path: Seq<char>,
        rules: Seq<char>,
        only: Option<Seq<Seq<char>>>,
        exclude: Option<Seq<Seq<char>>>,
        severity: Option<Seq<SeverityLevel>>,
        min_severity: Option<SeverityLevel>,
        fail_on: Option<SeverityLevel>,
        quiet: bool,
        format: OutputFormat,
        output: Option<Seq<char>>,
    },
    ListPlugins { target: Option<ScanTarget> },
    Config,
}

/// The texts of an optional list of strings.
pub open spec fn list_view(list: Option<Vec<String>>) -> Option<Seq<Seq<char>>> {
    match list {
        Some(items) => Some(views(items@)),
        None => None,
    }
}

/// The levels of an optional list.
pub open spec fn levels_view(list: Option<Vec<SeverityLevel>>) -> Option<Seq<SeverityLevel>> {
    match list {
        Some(items) => Some(items@),
        None => None,
    }
}

/// The text of an optional string.
pub open spec fn text_view(text: Option<String>) -> Option<Seq<char>> {
    match text {
        Some(t) => Some(t@),
        None => None,
    }
}

impl View for Commands {
    type V = CommandView;

    open spec fn view(&self) -> CommandView {
        match self {
            Commands::Scan {
                target,
                only,
                exclude,
                state,
                container,
                severity,
                min_severity,
                fail_on,
                quiet,
                format,
                output,
            } => CommandView::Scan {
                target: *target,
                only: list_view(*only),
                exclude: list_view(*exclude),
                state: list_view(*state),
                container: list_view(*container),
                severity: levels_view(*severity),
                min_severity: *min_severity,
                fail_on: *fail_on,
                quiet: *quiet,
                format: *format,
                output: text_view(*output),
            },
            Commands::DockerFile {
                path,
                rules,
                only,
                exclude,
                severity,
                min_severity,
                fail_on,
                quiet,
                format,
                output,
            } => CommandView::DockerFile {
                path: path@,
                rules: rules@,
                only: list_view(*only),
                exclude: list_view(*exclude),
                severity: levels_view(*severity),
                min_severity: *min_severity,
                fail_on: *fail_on,
                quiet: *quiet,
                format: *format,
                output: text_view(*output),
            },
            Commands::ListPlugins { target } => CommandView::ListPlugins { target: *target },
            Commands::Config {  } => CommandView::Config,
        }
    }
}

/// The platform that a text names.
pub open spec fn target_named(text: Seq<char>) -> Option<ScanTarget> {
    if text == "docker"@ {
        Some(ScanTarget::Docker)
    } else if text == "k8s"@ {
        Some(ScanTarget::K8s)
    } else if text == "both"@ {
        Some(ScanTarget::Both)
    } else {
        None
    }
}

/// The severity level that a text names.
pub open spec fn level_named(text: Seq<char>) -> Option<SeverityLevel> {
    if text == "informative"@ {
        Some(SeverityLevel::Informative)
    } else if text == "low"@ {
        Some(SeverityLevel::Low)
    } else if text == "medium"@ {
        Some(SeverityLevel::Medium)
    } else if text == "high"@ {
        Some(SeverityLevel::High)
    } else {
        None
    }
}

/// The output format that a text names.
pub open spec fn format_named(text: Seq<char>) -> Option<OutputFormat> {
    if text == "table"@ {
        Some(OutputFormat::Table)
    } else if text == "json"@ {
        Some(OutputFormat::Json)
    } else if text == "csv"@ {
        Some(OutputFormat::Csv)
    } else {
        None
    }
}

impl ScanTarget {
    /// The platform that `text` names.
    pub fn from_name(text: &str) -> (r: Option<ScanTarget>)
        ensures
            r == target_named(text@),
    {
        if same_text(text, "docker") {
            Some(ScanTarget::Docker)
        } else if same_text(text, "k8s") {
            Some(ScanTarget::K8s)
        } else if same_text(text, "both") {
            Some(ScanTarget::Both)
        } else {
            None
        }
    }
}

impl SeverityLevel {
    /// The severity level that `text` names.
    pub fn from_name(text: &str) -> (r: Option<SeverityLevel>)
        ensures
            r == level_named(text@),
    {
        if same_text(text, "informative") {
            Some(SeverityLevel::Informative)
        } else if same_text(text, "low") {
            Some(SeverityLevel::Low)
        } else if same_text(text, "medium") {
            Some(SeverityLevel::Medium)
        } else if same_text(text, "high") {
            Some(SeverityLevel::High)
        } else {
            None
        }
    }
}

impl OutputFormat {
    /// The output format that `text` names.
    pub fn from_name(text: &str) -> (r: Option<OutputFormat>)
        ensures
            r == format_named(text@),
    {
        if same_text(text, "table") {
            Some(OutputFormat::Table)
        } else if same_text(text, "json") {
            Some(OutputFormat::Json)
        } else if same_text(text, "csv") {
            Some(OutputFormat::Csv)
        } else {
            None
        }
    }
}

/// The values with which `flag` occurs, in order.
pub open spec fn values_of(occurrences: Seq<OccurrenceView>, flag: Flag) -> Seq<Seq<char>>
    decreases occurrences.len(),
{
    if occurrences.len() == 0 {
        Seq::empty()
    } else if occurrences.last().flag == flag {
        values_of(occurrences.drop_last(), flag).push(occurrences.last().value)
    } else {
        values_of(occurrences.drop_last(), flag)
    }
}

/// The items of a list option: the pieces between the commas of each of its
/// values, in order.
pub open spec fn items_of(values: Seq<Seq<char>>) -> Seq<Seq<char>>
    decreases values.len(),
{
    if values.len() == 0 {
        Seq::empty()
    } else {
        items_of(values.drop_last()) + split_commas(values.last())
    }
}

/// Whether `flag` occurs.
pub open spec fn given(occurrences: Seq<OccurrenceView>, flag: Flag) -> bool {
    values_of(occurrences, flag).len() > 0
}

/// The list that a list option gives: its items, or `None` where the option
/// does not occur.
pub open spec fn list_of(occurrences: Seq<OccurrenceView>, flag: Flag) -> Option<Seq<Seq<char>>> {
    if given(occurrences, flag) {
        Some(items_of(values_of(occurrences, flag)))
    } else {
        None
    }
}

/// The value of an option that occurs once: its first value, or `None` where
/// the option does not occur.
pub open spec fn value_of(occurrences: Seq<OccurrenceView>, flag: Flag) -> Option<Seq<char>> {
    if given(occurrences, flag) {
        Some(values_of(occurrences, flag)[0])
    } else {
        None
    }
}

/// The texts that `flag` must accept: the items of a list option, the values
/// of any other.
pub open spec fn texts_of(occurrences: Seq<OccurrenceView>, flag: Flag) -> Seq<Seq<char>> {
    if flag.takes_list() {
        items_of(values_of(occurrences, flag))
    } else {
        values_of(occurrences, flag)
    }
}

/// Whether `flag` accepts the text `value`. The options for a platform, for a
/// severity and for a format accept the names of their values; the others
/// accept every text.
pub open spec fn accepts_value(flag: Flag, value: Seq<char>) -> bool {
    match flag {
        Flag::Target => target_named(value) is Some,
        Flag::Severity => level_named(value) is Some,
        Flag::MinSeverity => level_named(value) is Some,
        Flag::FailOn => level_named(value) is Some,
        Flag::Format => format_named(value) is Some,
        _ => true,
    }
}

/// Whether `flag` accepts every text of `values`.
pub open spec fn accepts_all(flag: Flag, values: Seq<Seq<char>>) -> bool {
    forall|i: int| 0 <= i < values.len() ==> accepts_value(flag, #[trigger] values[i])
}

/// An error about the option `flag`.
pub open spec fn flag_error(kind: CliErrorKind, flag: Flag) -> CliErrorView {
    CliErrorView { kind, argument: flag.long() }
}

/// The first option, from position `k` of the order on, that is given twice
/// though it takes no list.
pub open spec fn check_used_twice(occurrences: Seq<OccurrenceView>, k: int) -> Option<CliErrorView>
    decreases flag_count() - k,
{
    if k < 0 || k >= flag_count() {
        None
    } else if !flag_at(k).takes_list() && values_of(occurrences, flag_at(k)).len() > 1 {
        Some(flag_error(CliErrorKind::UsedTwice, flag_at(k)))
    } else {
        check_used_twice(occurrences, k + 1)
    }
}

/// The first option, from position `k` of the order on, that has a value it
/// does not accept.
pub open spec fn check_values(occurrences: Seq<OccurrenceView>, k: int) -> Option<CliErrorView>
    decreases flag_count() - k,
{
    if k < 0 || k >= flag_count() {
        None
    } else if !accepts_all(flag_at(k), texts_of(occurrences, flag_at(k))) {
        Some(flag_error(CliErrorKind::InvalidValue, flag_at(k)))
    } else {
        check_values(occurrences, k + 1)
    }
}

/// What is wrong between the options, if anything: `--exclude` beside
/// `--only`, `--min-severity` beside `--severity`, `--quiet` without
/// `--fail-on`, in a scan of containers `--format` without `--output`, and in a
/// scan of a Dockerfile no `--path` or no `--rules`.
pub open spec fn check_relations(command: Subcommand, occurrences: Seq<OccurrenceView>) -> Option<
    CliErrorView,
> {
    if given(occurrences, Flag::Only) && given(occurrences, Flag::Exclude) {
        Some(flag_error(CliErrorKind::Conflict, Flag::Exclude))
    } else if given(occurrences, Flag::Severity) && given(occurrences, Flag::MinSeverity) {
        Some(flag_error(CliErrorKind::Conflict, Flag::MinSeverity))
    } else if given(occurrences, Flag::Quiet) && !given(occurrences, Flag::FailOn) {
        Some(flag_error(CliErrorKind::MissingCompanion, Flag::Quiet))
    } else if command == Subcommand::Scan && given(occurrences, Flag::Format) && !given(
        occurrences,
        Flag::Output,
    ) {
        Some(flag_error(CliErrorKind::MissingCompanion, Flag::Format))
    } else if command == Subcommand::DockerFile && !given(occurrences, Flag::Path) {
        Some(flag_error(CliErrorKind::MissingRequired, Flag::Path))
    } else if command == Subcommand::DockerFile && !given(occurrences, Flag::Rules) {
        Some(flag_error(CliErrorKind::MissingRequired, Flag::Rules))
    } else {
        None
    }
}

/// The first thing that is wrong with the options of a command: an option
/// given twice, then a value that is not accepted, then what is wrong between
/// the options.
pub open spec fn first_error(command: Subcommand, occurrences: Seq<OccurrenceView>) -> Option<
    CliErrorView,
> {
    if check_used_twice(occurrences, 0) is Some {
        check_used_twice(occurrences, 0)
    } else if check_values(occurrences, 0) is Some {
        check_values(occurrences, 0)
    } else {
        check_relations(command, occurrences)
    }
}

/// The levels that a list of texts names; a text that names none counts as
/// `Informative`.
pub open spec fn levels_named(texts: Seq<Seq<char>>) -> Seq<SeverityLevel> {
    Seq::new(
        texts.len(),
        |i: int|
            match level_named(texts[i]) {
                Some(level) => level,
                None => SeverityLevel::Informative,
            },
    )
}

/// The level that an optional text names.
pub open spec fn level_of(text: Option<Seq<char>>) -> Option<SeverityLevel> {
    match text {
        Some(t) => level_named(t),
        None => None,
    }
}

/// The platform that an optional text names.
pub open spec fn target_of(text: Option<Seq<char>>) -> Option<ScanTarget> {
    match text {
        Some(t) => target_named(t),
        None => None,
    }
}

/// The format that an optional text names, or `default` where there is none.
pub open spec fn format_of(text: Option<Seq<char>>, default: OutputFormat) -> OutputFormat {
    match text {
        Some(t) => match format_named(t) {
            Some(format) => format,
            None => default,
        },
        None => default,
    }
}

/// The levels of a list option for severities.
pub open spec fn severities_of(occurrences: Seq<OccurrenceView>) -> Option<Seq<SeverityLevel>> {
    match list_of(occurrences, Flag::Severity) {
        Some(texts) => Some(levels_named(texts)),
        None => None,
    }
}

/// The text of an optional text, or the empty text.
pub open spec fn text_or_empty(text: Option<Seq<char>>) -> Seq<char> {
    match text {
        Some(t) => t,
        None => Seq::empty(),
    }
}

/// The command that the options give, where nothing is wrong with them. A
/// scan of containers is of Docker and writes JSON, and a scan of a Dockerfile
/// writes a table, where the options do not say otherwise.
pub open spec fn command_of(command: Subcommand, occurrences: Seq<OccurrenceView>) -> CommandView {
    match command {
        Subcommand::Scan => CommandView::Scan {
            target: match target_of(value_of(occurrences, Flag::Target)) {
                Some(target) => target,
                None => ScanTarget::Docker,
            },
            only: list_of(occurrences, Flag::Only),
            exclude: list_of(occurrences, Flag::Exclude),
            state: list_of(occurrences, Flag::State),
            container: list_of(occurrences, Flag::Container),
            severity: severities_of(occurrences),
            min_severity: level_of(value_of(occurrences, Flag::MinSeverity)),
            fail_on: level_of(value_of(occurrences, Flag::FailOn)),
            quiet: given(occurrences, Flag::Quiet),
            format: format_of(value_of(occurrences, Flag::Format), OutputFormat::Json),
            output: value_of(occurrences, Flag::Output),
        },
        Subcommand::DockerFile => CommandView::DockerFile {
            path: text_or_empty(value_of(occurrences, Flag::Path)),
            rules: text_or_empty(value_of(occurrences, Flag::Rules)),
            only: list_of(occurrences, Flag::Only),
            exclude: list_of(occurrences, Flag::Exclude),
            severity: severities_of(occurrences),
            min_severity: level_of(value_of(occurrences, Flag::MinSeverity)),
            fail_on: level_of(value_of(occurrences, Flag::FailOn)),
            quiet: given(occurrences, Flag::Quiet),
            format: format_of(value_of(occurrences, Flag::Format), OutputFormat::Table),
            output: value_of(occurrences, Flag::Output),
        },
        Subcommand::ListPlugins => CommandView::ListPlugins {
            target: target_of(value_of(occurrences, Flag::Target)),
        },
        Subcommand::Config => CommandView::Config,
    }
}

/// The command that a text names, by its name or its short name.
pub open spec fn subcommand_named(text: Seq<char>) -> Option<Subcommand> {
    if text == "scan"@ || text == "s"@ {
        Some(Subcommand::Scan)
    } else if text == "docker-file"@ || text == "df"@ {
        Some(Subcommand::DockerFile)
    } else if text == "list-plugins"@ || text == "ls"@ {
        Some(Subcommand::ListPlugins)
    } else if text == "config"@ || text == "cfg"@ {
        Some(Subcommand::Config)
    } else {
        None
    }
}

/// What a command line means: the command with its options, or the first
/// error.
///
/// The first argument is the name of the program. The second is the command,
/// or asks for help or for the version. The options of the command follow.
pub open spec fn parse(args: Seq<Seq<char>>) -> Result<CommandView, CliErrorView> {
    if args.len() < 2 {
        Err(CliErrorView { kind: CliErrorKind::MissingSubcommand, argument: Seq::empty() })
    } else if is_help(args[1]) {
        Err(CliErrorView { kind: CliErrorKind::HelpRequested, argument: args[1] })
    } else if is_version(args[1]) {
        Err(CliErrorView { kind: CliErrorKind::VersionRequested, argument: args[1] })
    } else {
        match subcommand_named(args[1]) {
            None => if looks_like_option(args[1]) {
                Err(CliErrorView { kind: CliErrorKind::UnknownArgument, argument: args[1] })
            } else {
                Err(CliErrorView { kind: CliErrorKind::UnknownSubcommand, argument: args[1] })
            },
            Some(command) => match scan_from(command, args, 2) {
                Err(e) => Err(e),
                Ok(occurrences) => match first_error(command, occurrences) {
                    Some(e) => Err(e),
                    None => Ok(command_of(command, occurrences)),
                },
            },
        }
    }
}

/// Whether an optional error is the exec form of an optional error view.
pub open spec fn same_error(found: Option<CliError>, error: Option<CliErrorView>) -> bool {
    match (found, error) {
        (Some(f), Some(e)) => f@ == e,
        (None, None) => true,
        _ => false,
    }
}

impl Flag {
    /// Whether the option takes a list.
    pub fn is_list(self) -> (b: bool)
        ensures
            b == self.takes_list(),
    {
        matches!(self, Flag::Only | Flag::Exclude | Flag::State | Flag::Container | Flag::Severity)
    }

    /// Whether the option accepts the text `value`.
    pub fn accepts(self, value: &str) -> (b: bool)
        ensures
            b == accepts_value(self, value@),
    {
        match self {
            Flag::Target => ScanTarget::from_name(value).is_some(),
            Flag::Severity => SeverityLevel::from_name(value).is_some(),
            Flag::MinSeverity => SeverityLevel::from_name(value).is_some(),
            Flag::FailOn => SeverityLevel::from_name(value).is_some(),
            Flag::Format => OutputFormat::from_name(value).is_some(),
            _ => true,
        }
    }
}

/// The values with which `flag` occurs, in order.
pub fn flag_values(occurrences: &Vec<Occurrence>, flag: Flag) -> (values: Vec<String>)
    ensures
        views(values@) == values_of(occurrence_views(occurrences@), flag),
{
    let ghost all = occurrence_views(occurrences@);
    let mut values: Vec<String> = Vec::new();
    let mut i: usize = 0;
    proof {
        assert(all.take(0) =~= Seq::<OccurrenceView>::empty());
        assert(views(values@) =~= Seq::<Seq<char>>::empty());
    }
    while i < occurrences.len()
        invariant
            i <= occurrences.len(),
            all == occurrence_views(occurrences@),
            views(values@) == values_of(all.take(i as int), flag),
        decreases occurrences.len() - i,
    {
        proof {
            assert(all.take(i + 1).drop_last() =~= all.take(i as int));
            assert(all.take(i + 1).last() == occurrences@[i as int]@);
        }
        if occurrences[i].flag == flag {
            let value = occurrences[i].value.clone();
            proof {
                lemma_views_push(values@, value);
            }
            values.push(value);
        }
        i += 1;
    }
    assert(all.take(occurrences@.len() as int) =~= all);
    values
}

/// The pieces between the commas of each of `values`, in order.
pub fn list_items(values: &Vec<String>) -> (items: Vec<String>)
    ensures
        views(items@) == items_of(views(values@)),
{
    let mut items: Vec<String> = Vec::new();
    let mut i: usize = 0;
    proof {
        assert(views(values@).take(0) =~= Seq::<Seq<char>>::empty());
        assert(views(items@) =~= Seq::<Seq<char>>::empty());
    }
    while i < values.len()
        invariant
            i <= values.len(),
            views(items@) == items_of(views(values@).take(i as int)),
        decreases values.len() - i,
    {
        proof {
            assert(views(values@).take(i + 1).drop_last() =~= views(values@).take(i as int));
            assert(views(values@).take(i + 1).last() == values@[i as int]@);
        }
        let ghost before = items@;
        let mut pieces = split_on_commas(values[i].as_str());
        let ghost added = pieces@;
        items.append(&mut pieces);
        assert(views(items@) =~= views(before) + views(added));
        i += 1;
    }
    assert(views(values@).take(values@.len() as int) =~= views(values@));
    items
}

/// The texts that `flag` must accept.
fn flag_texts(occurrences: &Vec<Occurrence>, flag: Flag) -> (texts: Vec<String>)
    ensures
        views(texts@) == texts_of(occurrence_views(occurrences@), flag),
{
    let values = flag_values(occurrences, flag);
    if flag.is_list() {
        list_items(&values)
    } else {
        values
    }
}

/// The first option that is given twice though it takes no list.
fn used_twice(occurrences: &Vec<Occurrence>) -> (found: Option<CliError>)
    ensures
        same_error(found, check_used_twice(occurrence_views(occurrences@), 0)),
{
    let ghost all = occurrence_views(occurrences@);
    let mut k: usize = 0;
    while k < 13
        invariant
            k <= 13,
            all == occurrence_views(occurrences@),
            check_used_twice(all, 0) == check_used_twice(all, k as int),
        decreases 13 - k,
    {
        let flag = flag_of(k);
        if !flag.is_list() {
            let values = flag_values(occurrences, flag);
            if values.len() > 1 {
                assert(views(values@).len() == values@.len());
                return Some(error(CliErrorKind::UsedTwice, flag.long_name()));
            }
            assert(views(values@).len() == values@.len());
        }
        k += 1;
    }
    None
}

/// Whether `flag` accepts every text of `texts`.
fn accepts_every(flag: Flag, texts: &Vec<String>) -> (b: bool)
    ensures
        b == accepts_all(flag, views(texts@)),
{
    let mut i: usize = 0;
    while i < texts.len()
        invariant
            i <= texts.len(),
            forall|j: int| 0 <= j < i ==> accepts_value(flag, #[trigger] views(texts@)[j]),
        decreases texts.len() - i,
    {
        if !flag.accepts(texts[i].as_str()) {
            assert(views(texts@)[i as int] == texts@[i as int]@);
            return false;
        }
        assert(views(texts@)[i as int] == texts@[i as int]@);
        i += 1;
    }
    true
}

/// The first option that has a value it does not accept.
fn invalid_value(occurrences: &Vec<Occurrence>) -> (found: Option<CliError>)
    ensures
        same_error(found, check_values(occurrence_views(occurrences@), 0)),
{
    let ghost all = occurrence_views(occurrences@);
    let mut k: usize = 0;
    while k < 13
        invariant
            k <= 13,
            all == occurrence_views(occurrences@),
            check_values(all, 0) == check_values(all, k as int),
        decreases 13 - k,
    {
        let flag = flag_of(k);
        let texts = flag_texts(occurrences, flag);
        if !accepts_every(flag, &texts) {
            return Some(error(CliErrorKind::InvalidValue, flag.long_name()));
        }
        k += 1;
    }
    None
}

/// Whether `flag` occurs.
fn is_given(occurrences: &Vec<Occurrence>, flag: Flag) -> (b: bool)
    ensures
        b == given(occurrence_views(occurrences@), flag),
{
    let values = flag_values(occurrences, flag);
    assert(views(values@).len() == values@.len());
    values.len() > 0
}

/// What is wrong between the options, if anything.
fn wrong_relation(command: Subcommand, occurrences: &Vec<Occurrence>) -> (found: Option<CliError>)
    ensures
        same_error(found, check_relations(command, occurrence_views(occurrences@))),
{
    if is_given(occurrences, Flag::Only) && is_given(occurrences, Flag::Exclude) {
        Some(error(CliErrorKind::Conflict, Flag::Exclude.long_name()))
    } else if is_given(occurrences, Flag::Severity) && is_given(occurrences, Flag::MinSeverity) {
        Some(error(CliErrorKind::Conflict, Flag::MinSeverity.long_name()))
    } else if is_given(occurrences, Flag::Quiet) && !is_given(occurrences, Flag::FailOn) {
        Some(error(CliErrorKind::MissingCompanion, Flag::Quiet.long_name()))
    } else if matches!(command, Subcommand::Scan) && is_given(occurrences, Flag::Format)
        && !is_given(occurrences, Flag::Output) {
        Some(error(CliErrorKind::MissingCompanion, Flag::Format.long_name()))
    } else if matches!(command, Subcommand::DockerFile) && !is_given(occurrences, Flag::Path) {
        Some(error(CliErrorKind::MissingRequired, Flag::Path.long_name()))
    } else if matches!(command, Subcommand::DockerFile) && !is_given(occurrences, Flag::Rules) {
        Some(error(CliErrorKind::MissingRequired, Flag::Rules.long_name()))
    } else {
        None
    }
}

/// The first thing that is wrong with the options of a command.
pub fn find_error(command: Subcommand, occurrences: &Vec<Occurrence>) -> (found: Option<CliError>)
    ensures
        same_error(found, first_error(command, occurrence_views(occurrences@))),
{
    let twice = used_twice(occurrences);
    if twice.is_some() {
        return twice;
    }
    let invalid = invalid_value(occurrences);
    if invalid.is_some() {
        return invalid;
    }
    wrong_relation(command, occurrences)
}

/// The list that a list option gives.
fn option_list(occurrences: &Vec<Occurrence>, flag: Flag) -> (list: Option<Vec<String>>)
    ensures
        list_view(list) == list_of(occurrence_views(occurrences@), flag),
{
    let values = flag_values(occurrences, flag);
    assert(views(values@).len() == values@.len());
    if values.len() > 0 {
        Some(list_items(&values))
    } else {
        None
    }
}

/// The value of an option that occurs once.
fn option_value(occurrences: &Vec<Occurrence>, flag: Flag) -> (value: Option<String>)
    ensures
        text_view(value) == value_of(occurrence_views(occurrences@), flag),
{
    let values = flag_values(occurrences, flag);
    assert(views(values@).len() == values@.len());
    if values.len() > 0 {
        assert(views(values@)[0] == values@[0]@);
        Some(values[0].clone())
    } else {
        None
    }
}

/// The level that an optional text names.
fn option_level(text: &Option<String>) -> (level: Option<SeverityLevel>)
    ensures
        level == level_of(text_view(*text)),
{
    match text {
        Some(t) => SeverityLevel::from_name(t.as_str()),
        None => None,
    }
}

/// The platform that an optional text names.
fn option_target(text: &Option<String>) -> (target: Option<ScanTarget>)
    ensures
        target == target_of(text_view(*text)),
{
    match text {
        Some(t) => ScanTarget::from_name(t.as_str()),
        None => None,
    }
}

/// The format that an optional text names, or `default`.
fn option_format(text: &Option<String>, default: OutputFormat) -> (format: OutputFormat)
    ensures
        format == format_of(text_view(*text), default),
{
    match text {
        Some(t) => match OutputFormat::from_name(t.as_str()) {
            Some(format) => format,
            None => default,
        },
        None => default,
    }
}

/// The levels of the list option for severities.
fn option_severities(occurrences: &Vec<Occurrence>) -> (levels: Option<Vec<SeverityLevel>>)
    ensures
        levels_view(levels) == severities_of(occurrence_views(occurrences@)),
{
    match option_list(occurrences, Flag::Severity) {
        Some(texts) => {
            let mut levels: Vec<SeverityLevel> = Vec::new();
            let mut i: usize = 0;
            while i < texts.len()
                invariant
                    i <= texts.len(),
                    levels@.len() == i,
                    forall|j: int|
                        0 <= j < i ==> #[trigger] levels@[j] == levels_named(views(texts@))[j],
                decreases texts.len() - i,
            {
                let level = match SeverityLevel::from_name(texts[i].as_str()) {
                    Some(level) => level,
                    None => SeverityLevel::Informative,
                };
                assert(views(texts@)[i as int] == texts@[i as int]@);
                levels.push(level);
                i += 1;
            }
            assert(levels@ =~= levels_named(views(texts@)));
            Some(levels)
        },
        None => None,
    }
}

/// The command that the options give.
pub fn build_command(command: Subcommand, occurrences: &Vec<Occurrence>) -> (built: Commands)
    ensures
        built@ == command_of(command, occurrence_views(occurrences@)),
{
    match command {
        Subcommand::Scan => {
            let target = match option_target(&option_value(occurrences, Flag::Target)) {
                Some(target) => target,
                None => ScanTarget::Docker,
            };
            Commands::Scan {
                target,
                only: option_list(occurrences, Flag::Only),
                exclude: option_list(occurrences, Flag::Exclude),
                state: option_list(occurrences, Flag::State),
                container: option_list(occurrences, Flag::Container),
                severity: option_severities(occurrences),
                min_severity: option_level(&option_value(occurrences, Flag::MinSeverity)),
                fail_on: option_level(&option_value(occurrences, Flag::FailOn)),
                quiet: is_given(occurrences, Flag::Quiet),
                format: option_format(&option_value(occurrences, Flag::Format), OutputFormat::Json),
                output: option_value(occurrences, Flag::Output),
            }
        },
        Subcommand::DockerFile => {
            let path = match option_value(occurrences, Flag::Path) {
                Some(path) => path,
                None => String::new(),
            };
            let rules = match option_value(occurrences, Flag::Rules) {
                Some(rules) => rules,
                None => String::new(),
            };
            Commands::DockerFile {
                path,
                rules,
                only: option_list(occurrences, Flag::Only),
                exclude: option_list(occurrences, Flag::Exclude),
                severity: option_severities(occurrences),
                min_severity: option_level(&option_value(occurrences, Flag::MinSeverity)),
                fail_on: option_level(&option_value(occurrences, Flag::FailOn)),
                quiet: is_given(occurrences, Flag::Quiet),
                format: option_format(&option_value(occurrences, Flag::Format), OutputFormat::Table),
                output: option_value(occurrences, Flag::Output),
            }
        },
        Subcommand::ListPlugins => Commands::ListPlugins {
            target: option_target(&option_value(occurrences, Flag::Target)),
        },
        Subcommand::Config => Commands::Config {  },
    }
}

impl Subcommand {
    /// The command that `text` names.
    pub fn from_name(text: &str) -> (r: Option<Subcommand>)
        ensures
            r == subcommand_named(text@),
    {
        if same_text(text, "scan") || same_text(text, "s") {
            Some(Subcommand::Scan)
        } else if same_text(text, "docker-file") || same_text(text, "df") {
            Some(Subcommand::DockerFile)
        } else if same_text(text, "list-plugins") || same_text(text, "ls") {
            Some(Subcommand::ListPlugins)
        } else if same_text(text, "config") || same_text(text, "cfg") {
            Some(Subcommand::Config)
        } else {
            None
        }
    }
}

impl Cli {
    /// Reads a command line. `args` holds the name of the program first, then
    /// the command and its options.
    pub fn try_parse_from(args: &[&str]) -> (r: Result<Cli, CliError>)
        ensures
            match r {
                Ok(cli) => parse(arg_texts(args@)) == Result::<CommandView, CliErrorView>::Ok(
                    cli.command@,
                ),
                Err(e) => parse(arg_texts(args@)) == Result::<CommandView, CliErrorView>::Err(e@),
            },
    {
        if args.len() < 2 {
            return Err(CliError { kind: CliErrorKind::MissingSubcommand, argument: String::new() });
        }
        let name = args[1];
        assert(arg_texts(args@)[1] == name@);
        if is_help_token(name) {
            return Err(error(CliErrorKind::HelpRequested, name));
        }
        if is_version_token(name) {
            return Err(error(CliErrorKind::VersionRequested, name));
        }
        let command = match Subcommand::from_name(name) {
            Some(command) => command,
            None => {
                if is_option_like(name) {
                    return Err(error(CliErrorKind::UnknownArgument, name));
                } else {
                    return Err(error(CliErrorKind::UnknownSubcommand, name));
                }
            },
        };
        let occurrences = match scan_options(command, args, 2) {
            Ok(occurrences) => occurrences,
            Err(e) => {
                return Err(e);
            },
        };
        match find_error(command, &occurrences) {
            Some(e) => Err(e),
            None => Ok(Cli { command: build_command(command, &occurrences) }),
        }
    }

    /// Reads a command line that has no error.
    pub fn parse_from(args: &[&str]) -> (cli: Cli)
        requires
            parse(arg_texts(args@)) is Ok,
        ensures
            parse(arg_texts(args@)) == Result::<CommandView, CliErrorView>::Ok(cli.command@),
    {
        match Cli::try_parse_from(args) {
            Ok(cli) => cli,
            Err(_) => vstd::pervasive::unreached(),
        }
    }
}

} // verus!
