//! The command line of `gitway-add`, an `ssh-add`-compatible shim.

use vstd::prelude::*;

use crate::errors::{CliError, CliErrorView};
use crate::keys::HashAlg;
use crate::text::{
    ascii_lower, debug_text, join2, lower_char, number_of, parse_number, quoted, same,
    starts_with_dash,
};

verus! {

/// The usage text.
pub const HELP: &'static str =
    "gitway-add — load SSH keys into the gitway agent (an ssh-add-compatible shim)

Usage: gitway-add [OPTIONS] [FILE...]

With no FILE, adds the default keys (~/.ssh/id_ed25519, then id_ecdsa, id_rsa).
A key that is already loaded in the agent is skipped (no passphrase re-prompt).

Options:
  -l                  List loaded key fingerprints (default when no FILE given)
  -L                  List loaded public keys in full
  -d <file>           Remove the identity for <file>
  -D                  Remove all identities from the agent
  -x                  Lock the agent with a passphrase
  -X                  Unlock the agent
  -t <seconds>        Lifetime for keys added in this invocation (ssh-add -t)
  -E <sha256|sha512>  Fingerprint hash to display for -l
  -c                  Require confirmation on each signing request (ssh-add -c)
  --biometric         Enroll the key for biometric unlock while adding it
  --no-biometric      Force a typed passphrase even if the key is enrolled
  -h, --help          Show this help and exit

Keys load into the agent on $SSH_AUTH_SOCK.  Unsupported ssh-add flags are
accepted and ignored for compatibility.";

/// The characters of each of a list of texts.
pub open spec fn texts(list: Seq<String>) -> Seq<Seq<char>> {
    list.map_values(|text: String| text@)
}

/// What the invocation asks of the agent.
#[derive(Debug)]
pub enum Mode {
    /// Show the loaded identities, in full or by fingerprint.
    List { full: bool },
    /// Remove the identity of one key file.
    RemoveOne { path: String },
    /// Remove all identities.
    RemoveAll,
    /// Lock the agent.
    Lock,
    /// Unlock the agent.
    Unlock,
    /// Add the identities of these key files.
    Add { paths: Vec<String> },
}

/// A [`Mode`] with its texts.
pub enum ModeView {
    List { full: bool },
    RemoveOne { path: Seq<char> },
    RemoveAll,
    Lock,
    Unlock,
    Add { paths: Seq<Seq<char>> },
}

impl View for Mode {
    type V = ModeView;

    open spec fn view(&self) -> ModeView {
        match self {
            Mode::List { full } => ModeView::List { full: *full },
            Mode::RemoveOne { path } => ModeView::RemoveOne { path: path@ },
            Mode::RemoveAll => ModeView::RemoveAll,
            Mode::Lock => ModeView::Lock,
            Mode::Unlock => ModeView::Unlock,
            Mode::Add { paths } => ModeView::Add { paths: texts(paths@) },
        }
    }
}

/// A parsed command line.
#[derive(Debug)]
pub struct Parsed {
    pub mode: Mode,
    pub hash: HashAlg,
    /// Lifetime of the added keys, in seconds.
    pub lifetime: Option<u64>,
    pub confirm: bool,
    pub biometric: bool,
    pub no_biometric: bool,
}

/// A [`Parsed`] with its texts.
pub struct ParsedView {
    pub mode: ModeView,
    pub hash: HashAlg,
    pub lifetime: Option<u64>,
    pub confirm: bool,
    pub biometric: bool,
    pub no_biometric: bool,
}

impl View for Parsed {
    type V = ParsedView;

    open spec fn view(&self) -> ParsedView {
        ParsedView {
            mode: self.mode@,
            hash: self.hash,
            lifetime: self.lifetime,
            confirm: self.confirm,
            biometric: self.biometric,
            no_biometric: self.no_biometric,
        }
    }
}

/// The role of one argument.
#[derive(Debug, Clone, Copy, PartialEq, Eq, Structural)]
pub enum Word {
    /// `-l`
    List,
    /// `-L`
    ListFull,
    /// `-D`
    RemoveAll,
    /// `-x`
    Lock,
    /// `-X`
    Unlock,
    /// `-c`
    Confirm,
    /// `--biometric`
    Biometric,
    /// `--no-biometric`
    NoBiometric,
    /// `-d`, which takes a value.
    RemoveOne,
    /// `-t`, which takes a value.
    Lifetime,
    /// `-E`, which takes a value.
    Hash,
    /// A flag of `ssh-add` that has no effect here.
    Ignored,
    /// `--`, after which every argument is a path.
    EndOfFlags,
    /// Any other argument that begins with a dash.
    Unknown,
    /// A path.
    Path,
}

/// The letters of the one-letter flags of `ssh-add` that have no meaning here.
/// The letter `h` is among them: a request for help is answered before the
/// arguments are read.
pub open spec fn ignored_letter(c: char) -> bool {
    ||| c == 'A'
    ||| c == 'C'
    ||| c == 'H'
    ||| c == 'K'
    ||| c == 'M'
    ||| c == 'N'
    ||| c == 'S'
    ||| c == 'T'
    ||| c == 'e'
    ||| c == 'h'
    ||| c == 'k'
    ||| c == 'm'
    ||| c == 'p'
    ||| c == 'q'
    ||| c == 's'
    ||| c == 'v'
}

/// A flag of `ssh-add` that is accepted and has no effect.
pub open spec fn ignored_flag(arg: Seq<char>) -> bool {
    ||| arg.len() == 2 && arg[0] == '-' && ignored_letter(arg[1])
    ||| arg == "-vv"@
    ||| arg == "-vvv"@
    ||| arg == "--apple-load-keychain"@
    ||| arg == "--apple-use-keychain"@
}

/// Whether an argument is a flag of `ssh-add` that has no effect here.
fn is_ignored(arg: &str) -> (r: bool)
    ensures
        r == ignored_flag(arg@),
{
    if arg.unicode_len() == 2 && arg.get_char(0) == '-' {
        let c: char = arg.get_char(1);
        if c == 'A' || c == 'C' || c == 'H' || c == 'K' || c == 'M' || c == 'N' || c == 'S' || c
            == 'T' || c == 'e' || c == 'h' || c == 'k' || c == 'm' || c == 'p' || c == 'q' || c
            == 's' || c == 'v' {
            return true;
        }
    }
    same(arg, "-vv") || same(arg, "-vvv") || same(arg, "--apple-load-keychain") || same(
        arg,
        "--apple-use-keychain",
    )
}

/// The role of an argument, by its text.
pub open spec fn word_of(arg: Seq<char>) -> Word {
    if arg == "-l"@ {
        Word::List
    } else if arg == "-L"@ {
        Word::ListFull
    } else if arg == "-D"@ {
        Word::RemoveAll
    } else if arg == "-x"@ {
        Word::Lock
    } else if arg == "-X"@ {
        Word::Unlock
    } else if arg == "-c"@ {
        Word::Confirm
    } else if arg == "--biometric"@ {
        Word::Biometric
    } else if arg == "--no-biometric"@ {
        Word::NoBiometric
    } else if arg == "-d"@ {
        Word::RemoveOne
    } else if arg == "-t"@ {
        Word::Lifetime
    } else if arg == "-E"@ {
        Word::Hash
    } else if ignored_flag(arg) {
        Word::Ignored
    } else if arg == "--"@ {
        Word::EndOfFlags
    } else if arg.len() > 0 && arg[0] == '-' {
        Word::Unknown
    } else {
        Word::Path
    }
}

/// The role of an argument, by its text.
fn classify(arg: &str) -> (r: Word)
    ensures
        r == word_of(arg@),
{
    if same(arg, "-l") {
        Word::List
    } else if same(arg, "-L") {
        Word::ListFull
    } else if same(arg, "-D") {
        Word::RemoveAll
    } else if same(arg, "-x") {
        Word::Lock
    } else if same(arg, "-X") {
        Word::Unlock
    } else if same(arg, "-c") {
        Word::Confirm
    } else if same(arg, "--biometric") {
        Word::Biometric
    } else if same(arg, "--no-biometric") {
        Word::NoBiometric
    } else if same(arg, "-d") {
        Word::RemoveOne
    } else if same(arg, "-t") {
        Word::Lifetime
    } else if same(arg, "-E") {
        Word::Hash
    } else if is_ignored(arg) {
        Word::Ignored
    } else if same(arg, "--") {
        Word::EndOfFlags
    } else if starts_with_dash(arg) {
        Word::Unknown
    } else {
        Word::Path
    }
}

/// What the arguments read so far have set.
pub struct Flags {
    pub mode: Option<ModeView>,
    pub paths: Seq<Seq<char>>,
    pub hash: HashAlg,
    pub lifetime: Option<u64>,
    pub confirm: bool,
    pub biometric: bool,
    pub no_biometric: bool,
}

/// Before any argument is read.
pub open spec fn no_flags() -> Flags {
    Flags {
        mode: None,
        paths: Seq::empty(),
        hash: HashAlg::Sha256,
        lifetime: None,
        confirm: false,
        biometric: false,
        no_biometric: false,
    }
}

/// Selects a mode, which only one flag may do.
pub open spec fn with_mode(flags: Flags, mode: ModeView, flag: Seq<char>) -> Result<
    Flags,
    CliErrorView,
> {
    if flags.mode is Some {
        Err(CliErrorView::InvalidConfig(flag + " conflicts with a previous mode flag"@))
    } else {
        Ok(Flags { mode: Some(mode), ..flags })
    }
}

/// The lifetime that the value of `-t` writes down.
pub open spec fn lifetime_in(value: Seq<char>) -> Result<u64, CliErrorView> {
    match number_of(value) {
        Some(seconds) => Ok(seconds),
        None => Err(
            CliErrorView::InvalidConfig(
                "-t requires an integer number of seconds, got "@ + debug_text(value),
            ),
        ),
    }
}

/// The hash that the value of `-E` names, in small or large letters.
pub open spec fn hash_in(value: Seq<char>) -> Result<HashAlg, CliErrorView> {
    let name = value.map_values(|c: char| lower_char(c));
    if name == "sha256"@ {
        Ok(HashAlg::Sha256)
    } else if name == "sha512"@ {
        Ok(HashAlg::Sha512)
    } else {
        Err(CliErrorView::InvalidConfig("-E requires sha256 or sha512, got "@ + debug_text(name)))
    }
}

/// One reading step: what is set after the first of the arguments, and how many
/// arguments it took.
pub open spec fn step(args: Seq<Seq<char>>, flags: Flags) -> Result<(Flags, int), CliErrorView>
    recommends
        args.len() > 0,
{
    let arg = args[0];
    match word_of(arg) {
        Word::List => taking(with_mode(flags, ModeView::List { full: false }, arg), 1),
        Word::ListFull => taking(with_mode(flags, ModeView::List { full: true }, arg), 1),
        Word::RemoveAll => taking(with_mode(flags, ModeView::RemoveAll, arg), 1),
        Word::Lock => taking(with_mode(flags, ModeView::Lock, arg), 1),
        Word::Unlock => taking(with_mode(flags, ModeView::Unlock, arg), 1),
        Word::Confirm => Ok((Flags { confirm: true, ..flags }, 1)),
        Word::Biometric => Ok((Flags { biometric: true, ..flags }, 1)),
        Word::NoBiometric => Ok((Flags { no_biometric: true, ..flags }, 1)),
        Word::RemoveOne => if args.len() < 2 {
            Err(CliErrorView::InvalidConfig(arg + " requires a value"@))
        } else {
            taking(with_mode(flags, ModeView::RemoveOne { path: args[1] }, arg), 2)
        },
        Word::Lifetime => if args.len() < 2 {
            Err(CliErrorView::InvalidConfig(arg + " requires a value"@))
        } else {
            match lifetime_in(args[1]) {
                Ok(seconds) => Ok((Flags { lifetime: Some(seconds), ..flags }, 2)),
                Err(error) => Err(error),
            }
        },
        Word::Hash => if args.len() < 2 {
            Err(CliErrorView::InvalidConfig(arg + " requires a value"@))
        } else {
            match hash_in(args[1]) {
                Ok(hash) => Ok((Flags { hash, ..flags }, 2)),
                Err(error) => Err(error),
            }
        },
        Word::Ignored => Ok((flags, 1)),
        Word::EndOfFlags => Ok(
            (Flags { paths: flags.paths + args.skip(1), ..flags }, args.len() as int),
        ),
        Word::Unknown => Err(CliErrorView::InvalidConfig("unsupported flag: "@ + arg)),
        Word::Path => Ok((Flags { paths: flags.paths.push(arg), ..flags }, 1)),
    }
}

/// A result of [`with_mode`], together with the number of arguments it took.
pub open spec fn taking(flags: Result<Flags, CliErrorView>, taken: int) -> Result<
    (Flags, int),
    CliErrorView,
> {
    match flags {
        Ok(flags) => Ok((flags, taken)),
        Err(error) => Err(error),
    }
}

/// Reads all arguments from left to right, up to the first error.
pub open spec fn scan(args: Seq<Seq<char>>, flags: Flags) -> Result<Flags, CliErrorView>
    decreases args.len(),
{
    if args.len() == 0 {
        Ok(flags)
    } else {
        match step(args, flags) {
            Ok((next, taken)) => scan(args.skip(taken), next),
            Err(error) => Err(error),
        }
    }
}

/// The command line that a set of flags stands for.  Without a mode flag the
/// given paths are added, or the default keys where there is no path.
pub open spec fn conclude(
    flags: Flags,
    defaults: Result<Seq<Seq<char>>, CliErrorView>,
) -> Result<ParsedView, CliErrorView> {
    let mode = match flags.mode {
        Some(mode) => Ok(mode),
        None => if flags.paths.len() > 0 {
            Ok(ModeView::Add { paths: flags.paths })
        } else {
            match defaults {
                Ok(paths) => Ok(ModeView::Add { paths }),
                Err(error) => Err(error),
            }
        },
    };
    match mode {
        Err(error) => Err(error),
        Ok(mode) => if flags.biometric && flags.no_biometric {
            Err(CliErrorView::InvalidConfig("--biometric conflicts with --no-biometric"@))
        } else {
            Ok(
                ParsedView {
                    mode,
                    hash: flags.hash,
                    lifetime: flags.lifetime,
                    confirm: flags.confirm,
                    biometric: flags.biometric,
                    no_biometric: flags.no_biometric,
                },
            )
        },
    }
}

/// The meaning of a command line, given the default keys or the reason why
/// there are none.
pub open spec fn parse(
    args: Seq<Seq<char>>,
    defaults: Result<Seq<Seq<char>>, CliErrorView>,
) -> Result<ParsedView, CliErrorView> {
    match scan(args, no_flags()) {
        Ok(flags) => conclude(flags, defaults),
        Err(error) => Err(error),
    }
}

/// The texts of default key paths, or of the reason why there are none.
pub open spec fn paths_view(paths: Result<Vec<String>, CliError>) -> Result<
    Seq<Seq<char>>,
    CliErrorView,
> {
    match paths {
        Ok(paths) => Ok(texts(paths@)),
        Err(error) => Err(error@),
    }
}

/// The view of a parse result.
pub open spec fn parsed_view(r: Result<Parsed, CliError>) -> Result<ParsedView, CliErrorView> {
    match r {
        Ok(parsed) => Ok(parsed@),
        Err(error) => Err(error@),
    }
}

/// Whether an argument asks for the usage text, which takes precedence over all
/// others.
pub open spec fn help_flag(arg: Seq<char>) -> bool {
    arg == "-h"@ || arg == "--help"@ || arg == "-?"@
}

/// Whether any argument asks for the usage text.
pub fn wants_help(args: &[String]) -> (r: bool)
    ensures
        r == exists|i: int| 0 <= i < args@.len() && help_flag(#[trigger] args@[i]@),
{
    let mut i: usize = 0;
    while i < args.len()
        invariant
            i <= args@.len(),
            forall|j: int| 0 <= j < i ==> !help_flag(#[trigger] args@[j]@),
        decreases args@.len() - i,
    {
        let arg: &str = args[i].as_str();
        if same(arg, "-h") || same(arg, "--help") || same(arg, "-?") {
            assert(help_flag(args@[i as int]@));
            return true;
        }
        i += 1;
    }
    false
}

/// Parses the `-t` lifetime argument (an integer number of seconds).
pub fn parse_lifetime(secs: &str) -> (r: Result<u64, CliError>)
    ensures
        (match r {
            Ok(seconds) => Ok(seconds),
            Err(error) => Err(error@),
        }) == lifetime_in(secs@),
{
    match parse_number(secs) {
        Some(seconds) => Ok(seconds),
        None => Err(
            CliError::InvalidConfig(
                join2("-t requires an integer number of seconds, got ", quoted(secs).as_str()),
            ),
        ),
    }
}

/// Parses the `-E` fingerprint-hash argument (`sha256` or `sha512`).
pub fn parse_hash(value: &str) -> (r: Result<HashAlg, CliError>)
    ensures
        (match r {
            Ok(hash) => Ok(hash),
            Err(error) => Err(error@),
        }) == hash_in(value@),
{
    let name: String = ascii_lower(value);
    if same(name.as_str(), "sha256") {
        Ok(HashAlg::Sha256)
    } else if same(name.as_str(), "sha512") {
        Ok(HashAlg::Sha512)
    } else {
        Err(
            CliError::InvalidConfig(
                join2("-E requires sha256 or sha512, got ", quoted(name.as_str()).as_str()),
            ),
        )
    }
}

/// The view of an optional mode.
pub open spec fn mode_view(mode: Option<Mode>) -> Option<ModeView> {
    match mode {
        Some(mode) => Some(mode@),
        None => None,
    }
}

/// Selects a mode, which only one flag may do.
fn set_mode(slot: &mut Option<Mode>, new: Mode, flag: &str) -> (r: Result<(), CliError>)
    ensures
        match r {
            Ok(_) => *old(slot) is None && *final(slot) == Some(new),
            Err(error) => {
                &&& *old(slot) is Some
                &&& *final(slot) == *old(slot)
                &&& error@ == CliErrorView::InvalidConfig(
                    flag@ + " conflicts with a previous mode flag"@,
                )
            },
        },
{
    if slot.is_some() {
        return Err(CliError::InvalidConfig(join2(flag, " conflicts with a previous mode flag")));
    }
    *slot = Some(new);
    Ok(())
}

/// The value that follows the flag at position `i`.  The position moves behind
/// the value, or behind the flag where there is no value.
fn take(args: &[String], i: &mut usize, flag: &str) -> (r: Result<String, CliError>)
    requires
        *old(i) < usize::MAX,
    ensures
        match r {
            Ok(value) => {
                &&& *old(i) + 1 < args@.len()
                &&& value@ == args@[*old(i) + 1]@
                &&& *final(i) == *old(i) + 2
            },
            Err(error) => {
                &&& *old(i) + 1 >= args@.len()
                &&& *final(i) == *old(i) + 1
                &&& error@ == CliErrorView::InvalidConfig(flag@ + " requires a value"@)
            },
        },
{
    *i = *i + 1;
    if *i >= args.len() {
        return Err(CliError::InvalidConfig(join2(flag, " requires a value")));
    }
    let value: String = args[*i].clone();
    *i = *i + 1;
    Ok(value)
}

impl Parsed {
    /// Parses the arguments.  `defaults` are the default keys that exist, or
    /// the reason why there are none; they matter only where no mode flag and
    /// no path is given.
    pub fn from_args(args: &[String], defaults: Result<Vec<String>, CliError>) -> (r: Result<
        Parsed,
        CliError,
    >)
        ensures
            parsed_view(r) == parse(texts(args@), paths_view(defaults)),
    {
        let mut hash: HashAlg = HashAlg::Sha256;
        let mut lifetime: Option<u64> = None;
        let mut confirm: bool = false;
        let mut biometric: bool = false;
        let mut no_biometric: bool = false;
        let mut mode: Option<Mode> = None;
        let mut paths: Vec<String> = Vec::new();
        let mut i: usize = 0;
        let ghost words = texts(args@);
        let ghost mut flags = no_flags();
        proof {
            assert(words.skip(0) =~= words);
            assert(texts(paths@) =~= Seq::empty());
        }
        while i < args.len()
            invariant
                i <= args@.len(),
                words == texts(args@),
                flags.mode == mode_view(mode),
                flags.paths == texts(paths@),
                flags.hash == hash,
                flags.lifetime == lifetime,
                flags.confirm == confirm,
                flags.biometric == biometric,
                flags.no_biometric == no_biometric,
                scan(words.skip(i as int), flags) == scan(words, no_flags()),
            decreases args@.len() - i,
        {
            let ghost rest = words.skip(i as int);
            let ghost start = i as int;
            let arg: &str = args[i].as_str();
            assert(rest[0] == arg@);
            assert(rest.len() > 1 ==> rest[1] == args@[i + 1]@);
            assert forall|n: int| 0 < n <= rest.len() implies #[trigger] rest.skip(n)
                == words.skip(start + n) by {
                assert(rest.skip(n) =~= words.skip(start + n));
            }
            let ghost before = flags;
            match classify(arg) {
                Word::List => {
                    set_mode(&mut mode, Mode::List { full: false }, arg)?;
                    i += 1;
                },
                Word::ListFull => {
                    set_mode(&mut mode, Mode::List { full: true }, arg)?;
                    i += 1;
                },
                Word::RemoveAll => {
                    set_mode(&mut mode, Mode::RemoveAll, arg)?;
                    i += 1;
                },
                Word::Lock => {
                    set_mode(&mut mode, Mode::Lock, arg)?;
                    i += 1;
                },
                Word::Unlock => {
                    set_mode(&mut mode, Mode::Unlock, arg)?;
                    i += 1;
                },
                Word::Confirm => {
                    confirm = true;
                    i += 1;
                },
                Word::Biometric => {
                    biometric = true;
                    i += 1;
                },
                Word::NoBiometric => {
                    no_biometric = true;
                    i += 1;
                },
                Word::RemoveOne => {
                    let path: String = take(args, &mut i, arg)?;
                    set_mode(&mut mode, Mode::RemoveOne { path }, arg)?;
                },
                Word::Lifetime => {
                    let secs: String = take(args, &mut i, arg)?;
                    lifetime = Some(parse_lifetime(secs.as_str())?);
                },
                Word::Hash => {
                    let value: String = take(args, &mut i, arg)?;
                    hash = parse_hash(value.as_str())?;
                },
                Word::Ignored => {
                    i += 1;
                },
                Word::EndOfFlags => {
                    i += 1;
                    let ghost given = texts(paths@);
                    assert(given + words.subrange(start + 1, i as int) =~= given);
                    while i < args.len()
                        invariant
                            0 <= start < i <= args@.len(),
                            words == texts(args@),
                            texts(paths@) == given + words.subrange(start + 1, i as int),
                        decreases args@.len() - i,
                    {
                        let ghost earlier = texts(paths@);
                        let ghost word = words[i as int];
                        paths.push(args[i].clone());
                        assert(texts(paths@) =~= earlier.push(word));
                        assert(words.subrange(start + 1, i + 1) =~= words.subrange(
                            start + 1,
                            i as int,
                        ).push(word));
                        i += 1;
                    }
                    assert(words.subrange(start + 1, i as int) =~= rest.skip(1));
                },
                Word::Unknown => {
                    return Err(CliError::InvalidConfig(join2("unsupported flag: ", arg)));
                },
                Word::Path => {
                    paths.push(args[i].clone());
                    i += 1;
                    assert(texts(paths@) =~= before.paths.push(arg@));
                },
            }
            proof {
                flags = step(rest, before)->Ok_0.0;
            }
        }
        let mode: Mode = match mode {
            Some(mode) => mode,
            None => if paths.is_empty() {
                Mode::Add { paths: defaults? }
            } else {
                Mode::Add { paths }
            },
        };
        if biometric && no_biometric {
            return Err(
                CliError::InvalidConfig("--biometric conflicts with --no-biometric".to_owned()),
            );
        }
        Ok(Parsed { mode, hash, lifetime, confirm, biometric, no_biometric })
    }
}

/// What an invocation asks for.
#[derive(Debug)]
pub enum Invocation {
    /// Show the usage text.
    Help,
    /// Talk to the agent.
    Run(Parsed),
}

/// An [`Invocation`] with its texts.
pub enum InvocationView {
    Help,
    Run(ParsedView),
}

impl View for Invocation {
    type V = InvocationView;

    open spec fn view(&self) -> InvocationView {
        match self {
            Invocation::Help => InvocationView::Help,
            Invocation::Run(parsed) => InvocationView::Run(parsed@),
        }
    }
}

/// What a command line asks for.  A request for help comes before everything
/// else.
pub open spec fn invoked(
    args: Seq<Seq<char>>,
    defaults: Result<Seq<Seq<char>>, CliErrorView>,
) -> Result<InvocationView, CliErrorView> {
    if exists|i: int| 0 <= i < args.len() && help_flag(#[trigger] args[i]) {
        Ok(InvocationView::Help)
    } else {
        match parse(args, defaults) {
            Ok(parsed) => Ok(InvocationView::Run(parsed)),
            Err(error) => Err(error),
        }
    }
}

/// Decides what a command line asks for, given the default keys or the reason
/// why there are none.
pub fn invocation(args: &[String], defaults: Result<Vec<String>, CliError>) -> (r: Result<
    Invocation,
    CliError,
>)
    ensures
        (match r {
            Ok(invocation) => Ok(invocation@),
            Err(error) => Err(error@),
        }) == invoked(texts(args@), paths_view(defaults)),
{
    let ghost words = texts(args@);
    assert(forall|i: int| 0 <= i < args@.len() ==> #[trigger] words[i] == args@[i]@);
    if wants_help(args) {
        let ghost i = choose|i: int| 0 <= i < args@.len() && help_flag(#[trigger] args@[i]@);
        assert(help_flag(words[i]));
        return Ok(Invocation::Help);
    }
    assert(forall|i: int| 0 <= i < words.len() ==> !help_flag(#[trigger] words[i])) by {
        assert forall|i: int| 0 <= i < words.len() implies !help_flag(#[trigger] words[i]) by {
            assert(!help_flag(args@[i]@));
        }
    }
    match Parsed::from_args(args, defaults) {
        Ok(parsed) => Ok(Invocation::Run(parsed)),
        Err(error) => Err(error),
    }
}

/// A request for help is answered whatever stands around it, even arguments that
/// would otherwise be refused.
pub proof fn help_comes_first(
    args: Seq<Seq<char>>,
    defaults: Result<Seq<Seq<char>>, CliErrorView>,
    i: int,
)
    requires
        0 <= i < args.len(),
        help_flag(args[i]),
    ensures
        invoked(args, defaults) == Ok::<InvocationView, CliErrorView>(InvocationView::Help),
{
}

/// The argument `--` ends the flags.
proof fn lemma_double_dash()
    ensures
        word_of("--"@) == Word::EndOfFlags,
{
    reveal_strlit("--");
    reveal_strlit("-l");
    reveal_strlit("-L");
    reveal_strlit("-D");
    reveal_strlit("-x");
    reveal_strlit("-X");
    reveal_strlit("-c");
    reveal_strlit("--biometric");
    reveal_strlit("--no-biometric");
    reveal_strlit("-d");
    reveal_strlit("-t");
    reveal_strlit("-E");
    reveal_strlit("-vv");
    reveal_strlit("-vvv");
    reveal_strlit("--apple-load-keychain");
    reveal_strlit("--apple-use-keychain");
    assert("--"@[1] == '-');
    assert("-l"@[1] == 'l');
    assert("-L"@[1] == 'L');
    assert("-D"@[1] == 'D');
    assert("-x"@[1] == 'x');
    assert("-X"@[1] == 'X');
    assert("-c"@[1] == 'c');
    assert("-d"@[1] == 'd');
    assert("-t"@[1] == 't');
    assert("-E"@[1] == 'E');
    assert("--biometric"@.len() == 11);
    assert("--no-biometric"@.len() == 14);
    assert("-vv"@.len() == 3);
    assert("-vvv"@.len() == 4);
    assert("--apple-load-keychain"@.len() == 21);
    assert("--apple-use-keychain"@.len() == 20);
}

/// Everything after `--` is a path, whatever it looks like.
pub proof fn arguments_after_double_dash_are_paths(rest: Seq<Seq<char>>, flags: Flags)
    ensures
        scan(seq!["--"@] + rest, flags) == Ok::<Flags, CliErrorView>(
            Flags { paths: flags.paths + rest, ..flags },
        ),
{
    lemma_double_dash();
    let args = seq!["--"@] + rest;
    assert(args.skip(1) =~= rest);
    assert(args.skip(args.len() as int) =~= Seq::empty());
    assert(scan(args.skip(args.len() as int), Flags { paths: flags.paths + rest, ..flags }) == Ok::<
        Flags,
        CliErrorView,
    >(Flags { paths: flags.paths + rest, ..flags }));
}

/// The flags of `ssh-add` without a meaning here are accepted and change nothing.
pub proof fn ignored_flags_have_no_effect(arg: Seq<char>, rest: Seq<Seq<char>>, flags: Flags)
    requires
        word_of(arg) == Word::Ignored,
    ensures
        scan(seq![arg] + rest, flags) == scan(rest, flags),
{
    assert((seq![arg] + rest).skip(1) =~= rest);
}

/// A flag that has no meaning here and is none of `ssh-add` is refused by its
/// name, whatever follows it.
pub proof fn unknown_flags_are_refused(arg: Seq<char>, rest: Seq<Seq<char>>, flags: Flags)
    requires
        word_of(arg) == Word::Unknown,
    ensures
        scan(seq![arg] + rest, flags) == Err::<Flags, CliErrorView>(
            CliErrorView::InvalidConfig("unsupported flag: "@ + arg),
        ),
{
}

/// Once a flag has selected a mode, no later argument changes it: a command
/// line that is accepted has at most one mode flag.
pub proof fn the_first_mode_stands(args: Seq<Seq<char>>, flags: Flags)
    requires
        flags.mode is Some,
    ensures
        scan(args, flags) matches Ok(done) ==> done.mode == flags.mode,
    decreases args.len(),
{
    if args.len() > 0 {
        match step(args, flags) {
            Ok((next, taken)) => {
                the_first_mode_stands(args.skip(taken), next);
            },
            Err(_) => {},
        }
    }
}

/// An accepted command line never asks for biometric enrollment and for a typed
/// passphrase at once.
pub proof fn unlock_flags_exclude_each_other(
    args: Seq<Seq<char>>,
    defaults: Result<Seq<Seq<char>>, CliErrorView>,
)
    ensures
        parse(args, defaults) matches Ok(parsed) ==> !(parsed.biometric && parsed.no_biometric),
{
}

/// An accepted command line that adds keys names at least one, as long as the
/// default keys do.
pub proof fn adding_always_names_a_key(
    args: Seq<Seq<char>>,
    defaults: Result<Seq<Seq<char>>, CliErrorView>,
)
    requires
        defaults matches Ok(paths) ==> paths.len() > 0,
    ensures
        parse(args, defaults) matches Ok(parsed) ==> (parsed.mode matches ModeView::Add { paths }
            ==> paths.len() > 0),
{
    lemma_no_flag_adds(args, no_flags());
}

/// No flag selects the adding of keys: that is what remains without one.
proof fn lemma_no_flag_adds(args: Seq<Seq<char>>, flags: Flags)
    requires
        !(flags.mode matches Some(mode) && mode is Add),
    ensures
        scan(args, flags) matches Ok(done) ==> !(done.mode matches Some(mode) && mode is Add),
    decreases args.len(),
{
    if args.len() > 0 {
        match step(args, flags) {
            Ok((next, taken)) => {
                lemma_no_flag_adds(args.skip(taken), next);
            },
            Err(_) => {},
        }
    }
}

/// The number of arguments that a word takes, itself included: a flag with a
/// value takes two.
pub open spec fn width(arg: Seq<char>) -> int {
    match word_of(arg) {
        Word::RemoveOne => 2,
        Word::Lifetime => 2,
        Word::Hash => 2,
        _ => 1,
    }
}

/// Whether an argument that stood at position `n` would be read as a word of its
/// own: not as the value of a flag, and not behind `--`.
pub open spec fn word_place(args: Seq<Seq<char>>, n: int) -> bool
    decreases args.len(),
{
    if n <= 0 || args.len() == 0 {
        n == 0
    } else {
        &&& word_of(args[0]) != Word::EndOfFlags
        &&& width(args[0]) <= n
        &&& width(args[0]) <= args.len()
        &&& word_place(args.skip(width(args[0])), n - width(args[0]))
    }
}

/// The arguments with one more at position `n`.
pub open spec fn inserted(args: Seq<Seq<char>>, n: int, arg: Seq<char>) -> Seq<Seq<char>> {
    args.take(n) + seq![arg] + args.skip(n)
}

proof fn lemma_ignored_flag_inserted(
    args: Seq<Seq<char>>,
    n: int,
    arg: Seq<char>,
    flags: Flags,
)
    requires
        0 <= n <= args.len(),
        word_of(arg) == Word::Ignored,
        word_place(args, n),
    ensures
        scan(inserted(args, n, arg), flags) == scan(args, flags),
    decreases args.len(),
{
    let more = inserted(args, n, arg);
    if n == 0 {
        assert(more =~= seq![arg] + args);
        ignored_flags_have_no_effect(arg, args, flags);
    } else {
        let taken = width(args[0]);
        assert(more[0] == args[0]);
        assert(taken == 2 ==> more[1] == args[1]);
        assert(step(more, flags) == step(args, flags));
        match step(args, flags) {
            Ok((next, _)) => {
                assert(more.skip(taken) =~= inserted(args.skip(taken), n - taken, arg));
                lemma_ignored_flag_inserted(args.skip(taken), n - taken, arg, next);
            },
            Err(_) => {},
        }
    }
}

/// A flag of `ssh-add` without a meaning here may stand anywhere among the
/// arguments, except where the value of a flag is due and behind `--`: the
/// command line means what it means without it.
pub proof fn ignored_flags_may_stand_anywhere(
    args: Seq<Seq<char>>,
    n: int,
    arg: Seq<char>,
    defaults: Result<Seq<Seq<char>>, CliErrorView>,
)
    requires
        0 <= n <= args.len(),
        word_of(arg) == Word::Ignored,
        word_place(args, n),
    ensures
        parse(inserted(args, n, arg), defaults) == parse(args, defaults),
{
    lemma_ignored_flag_inserted(args, n, arg, no_flags());
}

/// Whether a command line asks for the default keys: it is well formed and names
/// neither a mode nor a path.
pub open spec fn asks_for_defaults(args: Seq<Seq<char>>) -> bool {
    scan(args, no_flags()) matches Ok(flags) && flags.mode is None && flags.paths.len() == 0
}

proof fn lemma_scan_reports_usage_errors(args: Seq<Seq<char>>, flags: Flags)
    ensures
        scan(args, flags) matches Err(error) ==> error is InvalidConfig,
    decreases args.len(),
{
    if args.len() > 0 {
        match step(args, flags) {
            Ok((next, taken)) => {
                lemma_scan_reports_usage_errors(args.skip(taken), next);
            },
            Err(_) => {},
        }
    }
}

/// Whether a command line asks for the default keys, so that they have to be
/// looked for before it is parsed.
pub fn wants_defaults(args: &[String]) -> (r: bool)
    ensures
        r == asks_for_defaults(texts(args@)),
{
    proof {
        lemma_scan_reports_usage_errors(texts(args@), no_flags());
    }
    match Parsed::from_args(args, Err(CliError::NoKeyFound)) {
        Err(CliError::NoKeyFound) => true,
        _ => false,
    }
}

/// The default keys matter only to a command line that asks for them.
pub proof fn defaults_matter_only_where_asked_for(
    args: Seq<Seq<char>>,
    defaults: Result<Seq<Seq<char>>, CliErrorView>,
    others: Result<Seq<Seq<char>>, CliErrorView>,
)
    requires
        !asks_for_defaults(args),
    ensures
        parse(args, defaults) == parse(args, others),
{
}

/// The flags that take the argument behind them as their value.
pub open spec fn value_flag(arg: Seq<char>) -> bool {
    arg == "-d"@ || arg == "-t"@ || arg == "-E"@
}

/// The flags that select a mode.
pub open spec fn mode_flag(arg: Seq<char>) -> bool {
    arg == "-l"@ || arg == "-L"@ || arg == "-D"@ || arg == "-x"@ || arg == "-X"@ || arg == "-d"@
}

/// Whether an argument begins with a dash.
pub open spec fn dashed(arg: Seq<char>) -> bool {
    arg.len() > 0 && arg[0] == '-'
}

/// Whether position `n` is that of a word of its own: the first argument is one,
/// the value of a flag is none, and behind `--` there are none.
pub open spec fn stands(args: Seq<Seq<char>>, n: int) -> bool
    decreases n,
{
    if n <= 0 || n > args.len() {
        n == 0
    } else if stands(args, n - 1) && !value_flag(args[n - 1]) && args[n - 1] != "--"@ {
        true
    } else if n >= 2 {
        stands(args, n - 2) && value_flag(args[n - 2])
    } else {
        false
    }
}

/// Whether a flag stands among the first `n` arguments.
pub open spec fn given(args: Seq<Seq<char>>, n: int, flag: Seq<char>) -> bool
    decreases n,
{
    n > 0 && (given(args, n - 1, flag) || (stands(args, n - 1) && args[n - 1] == flag))
}

/// The value of the last of the flags of a name among the first `n` arguments.
pub open spec fn last_value(args: Seq<Seq<char>>, n: int, flag: Seq<char>) -> Option<Seq<char>>
    decreases n,
{
    if n <= 0 {
        None
    } else if stands(args, n - 1) && args[n - 1] == flag {
        Some(args[n])
    } else {
        last_value(args, n - 1, flag)
    }
}

/// The mode that the flag at a position selects.
pub open spec fn mode_at(args: Seq<Seq<char>>, n: int) -> ModeView {
    if args[n] == "-l"@ {
        ModeView::List { full: false }
    } else if args[n] == "-L"@ {
        ModeView::List { full: true }
    } else if args[n] == "-D"@ {
        ModeView::RemoveAll
    } else if args[n] == "-x"@ {
        ModeView::Lock
    } else if args[n] == "-X"@ {
        ModeView::Unlock
    } else {
        ModeView::RemoveOne { path: args[n + 1] }
    }
}

/// The mode that the first mode flag among the first `n` arguments selects.
pub open spec fn mode_among(args: Seq<Seq<char>>, n: int) -> Option<ModeView>
    decreases n,
{
    if n <= 0 {
        None
    } else if mode_among(args, n - 1) is Some {
        mode_among(args, n - 1)
    } else if stands(args, n - 1) && mode_flag(args[n - 1]) {
        Some(mode_at(args, n - 1))
    } else {
        None
    }
}

/// The paths among the first `n` arguments, in their order: the words that begin
/// with no dash, and everything behind `--`.
pub open spec fn named_paths(args: Seq<Seq<char>>, n: int) -> Seq<Seq<char>>
    decreases n,
{
    if n <= 0 {
        Seq::empty()
    } else if (stands(args, n - 1) && !dashed(args[n - 1])) || given(args, n - 1, "--"@) {
        named_paths(args, n - 1).push(args[n - 1])
    } else {
        named_paths(args, n - 1)
    }
}

/// What is wrong with the word at position `n`: its value is missing or is not
/// one, a mode was selected before, or it is not a flag at all.
pub open spec fn objection(args: Seq<Seq<char>>, n: int) -> Option<Seq<char>> {
    let arg = args[n];
    if value_flag(arg) && n + 1 >= args.len() {
        Some(arg + " requires a value"@)
    } else if mode_flag(arg) {
        if mode_among(args, n) is Some {
            Some(arg + " conflicts with a previous mode flag"@)
        } else {
            None
        }
    } else if arg == "-t"@ {
        if number_of(args[n + 1]) is None {
            Some("-t requires an integer number of seconds, got "@ + debug_text(args[n + 1]))
        } else {
            None
        }
    } else if arg == "-E"@ {
        match hash_in(args[n + 1]) {
            Err(CliErrorView::InvalidConfig(message)) => Some(message),
            _ => None,
        }
    } else if !dashed(arg) || arg == "-c"@ || arg == "--biometric"@ || arg == "--no-biometric"@
        || arg == "--"@ || ignored_flag(arg) {
        None
    } else {
        Some("unsupported flag: "@ + arg)
    }
}

/// The first objection to one of the first `n` arguments.
pub open spec fn first_objection(args: Seq<Seq<char>>, n: int) -> Option<Seq<char>>
    decreases n,
{
    if n <= 0 {
        None
    } else if first_objection(args, n - 1) is Some {
        first_objection(args, n - 1)
    } else if stands(args, n - 1) {
        objection(args, n - 1)
    } else {
        None
    }
}

/// What the first `n` arguments set.
pub open spec fn flags_among(args: Seq<Seq<char>>, n: int) -> Flags {
    Flags {
        mode: mode_among(args, n),
        paths: named_paths(args, n),
        hash: match last_value(args, n, "-E"@) {
            Some(value) => hash_in(value)->Ok_0,
            None => HashAlg::Sha256,
        },
        lifetime: match last_value(args, n, "-t"@) {
            Some(value) => number_of(value),
            None => None,
        },
        confirm: given(args, n, "-c"@),
        biometric: given(args, n, "--biometric"@),
        no_biometric: given(args, n, "--no-biometric"@),
    }
}

proof fn lemma_literals()
    ensures
        "-l"@.len() == 2 && "-l"@[0] == '-' && "-l"@[1] == 'l',
        "-L"@.len() == 2 && "-L"@[0] == '-' && "-L"@[1] == 'L',
        "-D"@.len() == 2 && "-D"@[0] == '-' && "-D"@[1] == 'D',
        "-x"@.len() == 2 && "-x"@[0] == '-' && "-x"@[1] == 'x',
        "-X"@.len() == 2 && "-X"@[0] == '-' && "-X"@[1] == 'X',
        "-c"@.len() == 2 && "-c"@[0] == '-' && "-c"@[1] == 'c',
        "-d"@.len() == 2 && "-d"@[0] == '-' && "-d"@[1] == 'd',
        "-t"@.len() == 2 && "-t"@[0] == '-' && "-t"@[1] == 't',
        "-E"@.len() == 2 && "-E"@[0] == '-' && "-E"@[1] == 'E',
        "--"@.len() == 2 && "--"@[0] == '-' && "--"@[1] == '-',
        "--biometric"@.len() == 11 && "--biometric"@[0] == '-',
        "--no-biometric"@.len() == 14 && "--no-biometric"@[0] == '-',
        "-vv"@.len() == 3 && "-vv"@[0] == '-',
        "-vvv"@.len() == 4 && "-vvv"@[0] == '-',
        "--apple-load-keychain"@.len() == 21 && "--apple-load-keychain"@[0] == '-',
        "--apple-use-keychain"@.len() == 20 && "--apple-use-keychain"@[0] == '-',
{
    reveal_strlit("--");
    reveal_strlit("-l");
    reveal_strlit("-L");
    reveal_strlit("-D");
    reveal_strlit("-x");
    reveal_strlit("-X");
    reveal_strlit("-c");
    reveal_strlit("--biometric");
    reveal_strlit("--no-biometric");
    reveal_strlit("-d");
    reveal_strlit("-t");
    reveal_strlit("-E");
    reveal_strlit("-vv");
    reveal_strlit("-vvv");
    reveal_strlit("--apple-load-keychain");
    reveal_strlit("--apple-use-keychain");
}

/// Every flag has its own role and every role its own flags: what begins with a
/// dash and is none of them is unknown, and what begins with none is a path.
pub proof fn words_are_told_apart(arg: Seq<char>)
    ensures
        word_of(arg) == Word::List <==> arg == "-l"@,
        word_of(arg) == Word::ListFull <==> arg == "-L"@,
        word_of(arg) == Word::RemoveAll <==> arg == "-D"@,
        word_of(arg) == Word::Lock <==> arg == "-x"@,
        word_of(arg) == Word::Unlock <==> arg == "-X"@,
        word_of(arg) == Word::Confirm <==> arg == "-c"@,
        word_of(arg) == Word::Biometric <==> arg == "--biometric"@,
        word_of(arg) == Word::NoBiometric <==> arg == "--no-biometric"@,
        word_of(arg) == Word::RemoveOne <==> arg == "-d"@,
        word_of(arg) == Word::Lifetime <==> arg == "-t"@,
        word_of(arg) == Word::Hash <==> arg == "-E"@,
        word_of(arg) == Word::EndOfFlags <==> arg == "--"@,
        word_of(arg) == Word::Ignored <==> ignored_flag(arg),
        word_of(arg) == Word::Path <==> !dashed(arg),
        word_of(arg) == Word::Unknown ==> dashed(arg),
{
    lemma_literals();
}

proof fn lemma_values_do_not_stand(args: Seq<Seq<char>>, n: int)
    requires
        0 <= n < args.len(),
        stands(args, n),
        value_flag(args[n]),
    ensures
        !stands(args, n + 1),
    decreases n,
{
    if n >= 1 && stands(args, n - 1) && value_flag(args[n - 1]) {
        lemma_values_do_not_stand(args, n - 1);
    }
}

proof fn lemma_nothing_stands_behind(args: Seq<Seq<char>>, n: int, m: int)
    requires
        0 <= n < m <= args.len(),
        stands(args, n),
        args[n] == "--"@,
    ensures
        !stands(args, m),
    decreases m,
{
    lemma_literals();
    if m == n + 1 {
        if n >= 1 && stands(args, n - 1) && value_flag(args[n - 1]) {
            lemma_values_do_not_stand(args, n - 1);
        }
    } else {
        lemma_nothing_stands_behind(args, n, m - 1);
        if m > n + 2 {
            lemma_nothing_stands_behind(args, n, m - 2);
        }
    }
}

proof fn lemma_given_by_one(args: Seq<Seq<char>>, n: int, flag: Seq<char>)
    ensures
        given(args, n, flag) <==> exists|i: int|
            0 <= i < n && stands(args, i) && #[trigger] args[i] == flag,
    decreases n,
{
    if n > 0 {
        lemma_given_by_one(args, n - 1, flag);
        if given(args, n - 1, flag) {
            let i = choose|i: int| 0 <= i < n - 1 && stands(args, i) && #[trigger] args[i] == flag;
            assert(args[i] == flag);
        }
    }
}

proof fn lemma_not_behind(args: Seq<Seq<char>>, n: int)
    requires
        0 <= n <= args.len(),
        stands(args, n),
    ensures
        !given(args, n, "--"@),
{
    lemma_given_by_one(args, n, "--"@);
    if given(args, n, "--"@) {
        let i = choose|i: int| 0 <= i < n && stands(args, i) && #[trigger] args[i] == "--"@;
        lemma_nothing_stands_behind(args, i, n);
    }
}

proof fn lemma_behind_double_dash(args: Seq<Seq<char>>, n: int, m: int)
    requires
        0 <= n < m <= args.len(),
        stands(args, n),
        args[n] == "--"@,
    ensures
        flags_among(args, m) == (Flags {
            paths: named_paths(args, n) + args.subrange(n + 1, m),
            ..flags_among(args, n)
        }),
        first_objection(args, m) == first_objection(args, n),
        given(args, m, "--"@),
    decreases m,
{
    lemma_literals();
    if m == n + 1 {
        lemma_not_behind(args, n);
        assert(named_paths(args, n) + args.subrange(n + 1, m) =~= named_paths(args, n));
        assert(objection(args, n) is None);
    } else {
        lemma_behind_double_dash(args, n, m - 1);
        lemma_nothing_stands_behind(args, n, m - 1);
        assert(args.subrange(n + 1, m) =~= args.subrange(n + 1, m - 1).push(args[m - 1]));
        assert((named_paths(args, n) + args.subrange(n + 1, m - 1)).push(args[m - 1])
            =~= named_paths(args, n) + args.subrange(n + 1, m));
    }
}

proof fn lemma_first_objection_stays(args: Seq<Seq<char>>, n: int, m: int)
    requires
        n <= m,
        first_objection(args, n) is Some,
    ensures
        first_objection(args, m) == first_objection(args, n),
    decreases m - n,
{
    if n < m {
        lemma_first_objection_stays(args, n, m - 1);
    }
}

proof fn lemma_two_arguments(args: Seq<Seq<char>>, n: int)
    requires
        0 <= n,
        n + 1 < args.len(),
        stands(args, n),
        value_flag(args[n]),
        first_objection(args, n) is None,
        objection(args, n) is None,
    ensures
        stands(args, n + 2),
        first_objection(args, n + 2) is None,
        flags_among(args, n + 2) == (if args[n] == "-d"@ {
            Flags {
                mode: Some(ModeView::RemoveOne { path: args[n + 1] }),
                ..flags_among(args, n)
            }
        } else if args[n] == "-t"@ {
            Flags { lifetime: number_of(args[n + 1]), ..flags_among(args, n) }
        } else {
            Flags { hash: hash_in(args[n + 1])->Ok_0, ..flags_among(args, n) }
        }),
{
    lemma_literals();
    lemma_values_do_not_stand(args, n);
    lemma_not_behind(args, n);
    let one = flags_among(args, n + 1);
    assert(!given(args, n + 1, "--"@));
    assert(named_paths(args, n + 1) == named_paths(args, n));
    assert(first_objection(args, n + 1) is None);
    assert(one.mode == if args[n] == "-d"@ {
        Some(ModeView::RemoveOne { path: args[n + 1] })
    } else {
        mode_among(args, n)
    });
    assert(flags_among(args, n + 2) == one);
}

proof fn lemma_scan(args: Seq<Seq<char>>, n: int)
    requires
        0 <= n <= args.len(),
        stands(args, n),
        first_objection(args, n) is None,
    ensures
        scan(args.skip(n), flags_among(args, n)) == (match first_objection(
            args,
            args.len() as int,
        ) {
            Some(message) => Err(CliErrorView::InvalidConfig(message)),
            None => Ok(flags_among(args, args.len() as int)),
        }),
    decreases args.len() - n,
{
    let rest = args.skip(n);
    let flags = flags_among(args, n);
    let end = args.len() as int;
    if n < args.len() {
        let arg = args[n];
        words_are_told_apart(arg);
        lemma_literals();
        assert(rest[0] == arg);
        assert(n + 1 < args.len() ==> rest[1] == args[n + 1]);
        lemma_not_behind(args, n);
        if objection(args, n) is Some {
            assert(first_objection(args, n + 1) == objection(args, n));
            lemma_first_objection_stays(args, n + 1, end);
            assert(step(rest, flags) == Err::<(Flags, int), CliErrorView>(
                CliErrorView::InvalidConfig(objection(args, n)->0),
            ));
        } else if arg == "--"@ {
            lemma_behind_double_dash(args, n, end);
            assert(rest.skip(1) =~= args.subrange(n + 1, end));
            assert(rest.skip(rest.len() as int).len() == 0);
            assert(step(rest, flags) == Ok::<(Flags, int), CliErrorView>(
                (flags_among(args, end), rest.len() as int),
            ));
            assert(scan(rest.skip(rest.len() as int), flags_among(args, end)) == Ok::<
                Flags,
                CliErrorView,
            >(flags_among(args, end)));
        } else if value_flag(arg) {
            lemma_two_arguments(args, n);
            assert(step(rest, flags) == Ok::<(Flags, int), CliErrorView>(
                (flags_among(args, n + 2), 2),
            ));
            assert(rest.skip(2) =~= args.skip(n + 2));
            lemma_scan(args, n + 2);
        } else {
            assert(step(rest, flags) == Ok::<(Flags, int), CliErrorView>(
                (flags_among(args, n + 1), 1),
            ));
            assert(rest.skip(1) =~= args.skip(n + 1));
            assert(first_objection(args, n + 1) is None);
            lemma_scan(args, n + 1);
        }
    }
}

/// What a command line means, word by word: it is refused for the first word that
/// there is an objection to, and otherwise every word that stands has its effect
/// and nothing else has any.
pub proof fn every_word_counts(args: Seq<Seq<char>>)
    ensures
        scan(args, no_flags()) == (match first_objection(args, args.len() as int) {
            Some(message) => Err(CliErrorView::InvalidConfig(message)),
            None => Ok(flags_among(args, args.len() as int)),
        }),
{
    lemma_scan(args, 0);
    assert(args.skip(0) =~= args);
    assert(flags_among(args, 0) == no_flags());
}

/// In an accepted command line a switch is set exactly if its flag stands among
/// the arguments as a word of its own, neither as the value of another flag nor
/// behind `--`.
pub proof fn switches_are_set_by_their_flags(
    args: Seq<Seq<char>>,
    defaults: Result<Seq<Seq<char>>, CliErrorView>,
)
    ensures
        parse(args, defaults) matches Ok(parsed) ==> {
            &&& parsed.confirm <==> exists|n: int|
                0 <= n < args.len() && stands(args, n) && #[trigger] args[n] == "-c"@
            &&& parsed.biometric <==> exists|n: int|
                0 <= n < args.len() && stands(args, n) && #[trigger] args[n] == "--biometric"@
            &&& parsed.no_biometric <==> exists|n: int|
                0 <= n < args.len() && stands(args, n) && #[trigger] args[n] == "--no-biometric"@
        },
{
    every_word_counts(args);
    lemma_given_by_one(args, args.len() as int, "-c"@);
    lemma_given_by_one(args, args.len() as int, "--biometric"@);
    lemma_given_by_one(args, args.len() as int, "--no-biometric"@);
}

/// In an accepted command line the lifetime and the hash are those of the last
/// `-t` and of the last `-E`; without them there is no lifetime, and the hash is
/// SHA-256.
pub proof fn the_last_value_counts(
    args: Seq<Seq<char>>,
    defaults: Result<Seq<Seq<char>>, CliErrorView>,
)
    ensures
        parse(args, defaults) matches Ok(parsed) ==> {
            &&& parsed.lifetime == match last_value(args, args.len() as int, "-t"@) {
                Some(value) => number_of(value),
                None => None,
            }
            &&& last_value(args, args.len() as int, "-E"@) is None ==> parsed.hash
                == HashAlg::Sha256
            &&& last_value(args, args.len() as int, "-E"@) matches Some(value) ==> parsed.hash
                == hash_in(value)->Ok_0
        },
{
    every_word_counts(args);
}

proof fn lemma_mode_by_one(args: Seq<Seq<char>>, n: int)
    requires
        0 <= n <= args.len(),
        first_objection(args, n) is None,
    ensures
        mode_among(args, n) is None <==> forall|i: int|
            0 <= i < n && stands(args, i) ==> !mode_flag(#[trigger] args[i]),
        forall|i: int|
            0 <= i < n && stands(args, i) && mode_flag(#[trigger] args[i]) ==> mode_among(args, n)
                == Some(mode_at(args, i)),
    decreases n,
{
    lemma_literals();
    if n > 0 {
        lemma_mode_by_one(args, n - 1);
        if mode_among(args, n - 1) is Some && stands(args, n - 1) {
            assert(objection(args, n - 1) is None);
            assert(!mode_flag(args[n - 1]));
        }
    }
}

/// In an accepted command line the mode is that of the one mode flag that stands;
/// without one, keys are added: the named paths, or the default keys where none
/// is named.
pub proof fn the_mode_flag_selects_the_mode(
    args: Seq<Seq<char>>,
    defaults: Result<Seq<Seq<char>>, CliErrorView>,
)
    ensures
        parse(args, defaults) matches Ok(parsed) ==> {
            &&& forall|n: int|
                0 <= n < args.len() && stands(args, n) && mode_flag(#[trigger] args[n])
                    ==> parsed.mode == mode_at(args, n)
            &&& (forall|n: int|
                0 <= n < args.len() && stands(args, n) ==> !mode_flag(#[trigger] args[n])) ==> {
                let paths = named_paths(args, args.len() as int);
                &&& paths.len() > 0 ==> parsed.mode == ModeView::Add { paths }
                &&& paths.len() == 0 ==> (defaults matches Ok(found) && parsed.mode
                    == ModeView::Add { paths: found })
            }
        },
{
    every_word_counts(args);
    if first_objection(args, args.len() as int) is None {
        lemma_mode_by_one(args, args.len() as int);
    }
}

proof fn lemma_no_objection_by_one(args: Seq<Seq<char>>, n: int)
    ensures
        first_objection(args, n) is None <==> forall|i: int|
            0 <= i < n && #[trigger] stands(args, i) ==> objection(args, i) is None,
    decreases n,
{
    if n > 0 {
        lemma_no_objection_by_one(args, n - 1);
        if first_objection(args, n - 1) is Some {
            let i = choose|i: int|
                0 <= i < n - 1 && #[trigger] stands(args, i) && objection(args, i) is Some;
            assert(stands(args, i));
        }
    }
}

/// A command line is accepted exactly if there is an objection to none of its
/// words, it does not ask for enrollment and for a typed passphrase at once, and
/// the default keys are there where they are asked for.
pub proof fn what_is_accepted(
    args: Seq<Seq<char>>,
    defaults: Result<Seq<Seq<char>>, CliErrorView>,
)
    ensures
        ({
            let end = args.len() as int;
            let sound = forall|n: int|
                0 <= n < end && #[trigger] stands(args, n) ==> objection(args, n) is None;
            let both = given(args, end, "--biometric"@) && given(args, end, "--no-biometric"@);
            let asked = mode_among(args, end) is None && named_paths(args, end).len() == 0;
            &&& parse(args, defaults) is Ok <==> sound && !both && (asked ==> defaults is Ok)
            &&& !sound ==> (parse(args, defaults) matches Err(error) && (
            first_objection(args, end) matches Some(message) && error
                == CliErrorView::InvalidConfig(message)))
            &&& sound && asked ==> (defaults matches Err(reason) ==> (
            parse(args, defaults) matches Err(error) && error == reason))
            &&& sound && both && (asked ==> defaults is Ok) ==> (
            parse(args, defaults) matches Err(error) && error == CliErrorView::InvalidConfig(
                "--biometric conflicts with --no-biometric"@,
            ))
            &&& asks_for_defaults(args) <==> sound && asked
        }),
{
    every_word_counts(args);
    lemma_no_objection_by_one(args, args.len() as int);
}

/// A request for help is one of three words, anywhere among the arguments; without
/// one, the command line is run as it was parsed, or refused for the same reason.
pub proof fn help_is_asked_for_by_name(
    args: Seq<Seq<char>>,
    defaults: Result<Seq<Seq<char>>, CliErrorView>,
)
    ensures
        ({
            let asked = exists|i: int|
                0 <= i < args.len() && (#[trigger] args[i] == "-h"@ || args[i] == "--help"@
                    || args[i] == "-?"@);
            match invoked(args, defaults) {
                Ok(InvocationView::Help) => asked,
                Ok(InvocationView::Run(parsed)) => !asked && parse(args, defaults) == Ok::<
                    ParsedView,
                    CliErrorView,
                >(parsed),
                Err(error) => !asked && parse(args, defaults) == Err::<ParsedView, CliErrorView>(
                    error,
                ),
            }
        }),
{
    if exists|i: int| 0 <= i < args.len() && help_flag(#[trigger] args[i]) {
        let i = choose|i: int| 0 <= i < args.len() && help_flag(#[trigger] args[i]);
        assert(args[i] == "-h"@ || args[i] == "--help"@ || args[i] == "-?"@);
    } else {
        assert forall|i: int| 0 <= i < args.len() implies !(#[trigger] args[i] == "-h"@ || args[i]
            == "--help"@ || args[i] == "-?"@) by {
            assert(!help_flag(args[i]));
        }
    }
}

/// The flags of `ssh-add` that are accepted without an effect, by name.
pub proof fn the_ignored_flags(arg: Seq<char>)
    ensures
        ignored_flag(arg) <==> {
            ||| arg == "-A"@
            ||| arg == "-C"@
            ||| arg == "-H"@
            ||| arg == "-K"@
            ||| arg == "-M"@
            ||| arg == "-N"@
            ||| arg == "-S"@
            ||| arg == "-T"@
            ||| arg == "-e"@
            ||| arg == "-h"@
            ||| arg == "-k"@
            ||| arg == "-m"@
            ||| arg == "-p"@
            ||| arg == "-q"@
            ||| arg == "-s"@
            ||| arg == "-v"@
            ||| arg == "-vv"@
            ||| arg == "-vvv"@
            ||| arg == "--apple-load-keychain"@
            ||| arg == "--apple-use-keychain"@
        },
{
    reveal_strlit("-A");
    reveal_strlit("-C");
    reveal_strlit("-H");
    reveal_strlit("-K");
    reveal_strlit("-M");
    reveal_strlit("-N");
    reveal_strlit("-S");
    reveal_strlit("-T");
    reveal_strlit("-e");
    reveal_strlit("-h");
    reveal_strlit("-k");
    reveal_strlit("-m");
    reveal_strlit("-p");
    reveal_strlit("-q");
    reveal_strlit("-s");
    reveal_strlit("-v");
    if arg.len() == 2 && arg[0] == '-' {
        assert(arg =~= seq!['-', arg[1]]);
        assert("-A"@ =~= seq!['-', 'A']);
        assert("-C"@ =~= seq!['-', 'C']);
        assert("-H"@ =~= seq!['-', 'H']);
        assert("-K"@ =~= seq!['-', 'K']);
        assert("-M"@ =~= seq!['-', 'M']);
        assert("-N"@ =~= seq!['-', 'N']);
        assert("-S"@ =~= seq!['-', 'S']);
        assert("-T"@ =~= seq!['-', 'T']);
        assert("-e"@ =~= seq!['-', 'e']);
        assert("-h"@ =~= seq!['-', 'h']);
        assert("-k"@ =~= seq!['-', 'k']);
        assert("-m"@ =~= seq!['-', 'm']);
        assert("-p"@ =~= seq!['-', 'p']);
        assert("-q"@ =~= seq!['-', 'q']);
        assert("-s"@ =~= seq!['-', 's']);
        assert("-v"@ =~= seq!['-', 'v']);
    }
}

/// The value of `-E` is `sha256` or `sha512`, each of its letters small or large;
/// any other value is named in the refusal.
pub proof fn hashes_are_named_in_any_case(value: Seq<char>)
    ensures
        hash_in(value) == Ok::<HashAlg, CliErrorView>(HashAlg::Sha256) <==> {
            &&& value.len() == 6
            &&& value[0] == 's' || value[0] == 'S'
            &&& value[1] == 'h' || value[1] == 'H'
            &&& value[2] == 'a' || value[2] == 'A'
            &&& value[3] == '2' && value[4] == '5' && value[5] == '6'
        },
        hash_in(value) == Ok::<HashAlg, CliErrorView>(HashAlg::Sha512) <==> {
            &&& value.len() == 6
            &&& value[0] == 's' || value[0] == 'S'
            &&& value[1] == 'h' || value[1] == 'H'
            &&& value[2] == 'a' || value[2] == 'A'
            &&& value[3] == '5' && value[4] == '1' && value[5] == '2'
        },
        hash_in(value) matches Err(error) ==> error == CliErrorView::InvalidConfig(
            "-E requires sha256 or sha512, got "@ + debug_text(
                value.map_values(|c: char| lower_char(c)),
            ),
        ),
{
    reveal_strlit("sha256");
    reveal_strlit("sha512");
    let name = value.map_values(|c: char| lower_char(c));
    assert("sha256"@.len() == 6 && "sha512"@.len() == 6);
    assert(name.len() == value.len());
    if value.len() == 6 {
        assert(name[0] == lower_char(value[0]));
        assert(name[1] == lower_char(value[1]));
        assert(name[2] == lower_char(value[2]));
        assert(name[3] == lower_char(value[3]));
        assert(name[4] == lower_char(value[4]));
        assert(name[5] == lower_char(value[5]));
        lemma_six_characters(name, "sha256"@);
        lemma_six_characters(name, "sha512"@);
    }
}

proof fn lemma_six_characters(a: Seq<char>, b: Seq<char>)
    requires
        a.len() == 6,
        b.len() == 6,
    ensures
        a == b <==> a[0] == b[0] && a[1] == b[1] && a[2] == b[2] && a[3] == b[3] && a[4] == b[4]
            && a[5] == b[5],
{
    if a[0] == b[0] && a[1] == b[1] && a[2] == b[2] && a[3] == b[3] && a[4] == b[4] && a[5]
        == b[5] {
        assert(a =~= b);
    }
}

/// The value of `-t` is taken exactly if it writes down a number, and is that
/// number of seconds.
pub proof fn lifetimes_are_numbers(value: Seq<char>)
    ensures
        lifetime_in(value) is Ok <==> number_of(value) is Some,
        lifetime_in(value) matches Ok(seconds) ==> number_of(value) == Some(seconds),
        lifetime_in(value) matches Err(error) ==> error == CliErrorView::InvalidConfig(
            "-t requires an integer number of seconds, got "@ + debug_text(value),
        ),
{
}

/// The values of `-t` and `-E` are read as numbers and as names of hashes.
pub proof fn values_are_read_as_written(
    value: &str,
    lifetime: Result<u64, CliError>,
    hash: Result<HashAlg, CliError>,
)
    requires
        call_ensures(parse_lifetime, (value,), lifetime),
        call_ensures(parse_hash, (value,), hash),
    ensures
        lifetime matches Ok(seconds) ==> number_of(value@) == Some(seconds),
        lifetime is Err ==> number_of(value@) is None,
        hash matches Ok(name) ==> hash_in(value@) == Ok::<HashAlg, CliErrorView>(name),
        hash is Err ==> hash_in(value@) is Err,
{
}

/// A parsed command line is seen as it is, field by field.
pub proof fn command_lines_are_seen_as_they_are(parsed: Parsed, invocation: Invocation)
    ensures
        parsed@.hash == parsed.hash,
        parsed@.lifetime == parsed.lifetime,
        parsed@.confirm == parsed.confirm,
        parsed@.biometric == parsed.biometric,
        parsed@.no_biometric == parsed.no_biometric,
        match parsed.mode {
            Mode::List { full } => parsed@.mode == (ModeView::List { full }),
            Mode::RemoveOne { path } => parsed@.mode == (ModeView::RemoveOne { path: path@ }),
            Mode::RemoveAll => parsed@.mode is RemoveAll,
            Mode::Lock => parsed@.mode is Lock,
            Mode::Unlock => parsed@.mode is Unlock,
            Mode::Add { paths } => parsed@.mode matches ModeView::Add { paths: list } && list.len()
                == paths@.len() && forall|i: int|
                0 <= i < list.len() ==> #[trigger] list[i] == paths@[i]@,
        },
        match invocation {
            Invocation::Help => invocation@ is Help,
            Invocation::Run(parsed) => invocation@ == InvocationView::Run(parsed@),
        },
{
}

/// What the parser gives back is set by the flags that stand among the arguments,
/// and an accepted command line is run as it was parsed.
pub proof fn the_parser_sets_what_the_flags_say(
    args: &[String],
    defaults: Result<Vec<String>, CliError>,
    parsed: Parsed,
)
    requires
        call_ensures(Parsed::from_args, (args, defaults), Ok::<Parsed, CliError>(parsed)),
    ensures
        ({
            let words = texts(args@);
            let end = words.len() as int;
            &&& parsed.confirm <==> given(words, end, "-c"@)
            &&& parsed.biometric <==> given(words, end, "--biometric"@)
            &&& parsed.no_biometric <==> given(words, end, "--no-biometric"@)
            &&& parsed.lifetime == match last_value(words, end, "-t"@) {
                Some(value) => number_of(value),
                None => None,
            }
            &&& mode_among(words, end) matches Some(mode) ==> parsed.mode@ == mode
            &&& mode_among(words, end) is None && named_paths(words, end).len() > 0
                ==> parsed.mode@ == (ModeView::Add { paths: named_paths(words, end) })
        }),
{
    every_word_counts(texts(args@));
}

} // verus!
